use eve_mapmaker::qgis_api_wrapper::{
    create_blank_project, create_tree_group, edit_layer_field_color, export_map_to_jpg,
    get_layer_fields_by_category, get_qgis_app_path, initialize_qgis_app_path,
    load_vector_layer_to_project, project_file, project_folder, setup_basic_topo_layer,
    setup_basic_veg_layer,
};

#[test]
fn qgis_app_path_by_operating_system() {
    assert_eq!(get_qgis_app_path("windows"), Some("AppData\\Roaming\\QGIS\\QGIS3"));
    assert_eq!(get_qgis_app_path("linux"), Some(".local/share/QGIS/QGIS3"));
    assert_eq!(get_qgis_app_path("macos"), Some("Library/Application Support/QGIS/QGIS3"));
    assert_eq!(get_qgis_app_path("freebsd"), None);
    assert_eq!(get_qgis_app_path("Linux"), None);
    assert_eq!(get_qgis_app_path(""), None);
}

#[test]
fn project_paths() {
    assert_eq!(project_folder("test"), "resources/QGIS/test");
    assert_eq!(project_file("test"), "resources/QGIS/test/test.qgz");
}

#[test]
fn initialize_qgis_app_path_on_linux() {
    let request = initialize_qgis_app_path("linux").unwrap();
    assert_eq!(
        request.code,
        r#"
from qgis.core import QgsApplication
QgsApplication.setPrefixPath(".local/share/QGIS/QGIS3", True)
"#
    );
    assert_eq!(
        request.success_message,
        r#"QGIS app path initialized"#
    );
}

#[test]
fn initialize_qgis_app_path_on_windows_and_elsewhere() {
    let request = initialize_qgis_app_path("windows").unwrap();
    assert!(request.code.contains("QgsApplication.setPrefixPath(\"AppData\\Roaming\\QGIS\\QGIS3\", True)"));
    assert_eq!(initialize_qgis_app_path("plan9"), None);
}

#[test]
fn test_qgis_api_create_blank_project_success() {
    let request = create_blank_project("test");
    assert_eq!(
        request.code,
        r#"
from qgis.core import QgsProject
project = QgsProject.instance()
project.clear()
project.write("resources/QGIS/test/test.qgz")
"#
    );
    assert_eq!(
        request.success_message,
        r#"Project test created at resources/QGIS/test"#
    );
}

#[test]
fn test_qgis_api_load_vector_layer_to_project_success() {
    let request = load_vector_layer_to_project(
        "resources/QGIS/test/test.qgz",
        "resources/QGIS/test/Vegetation/FORMATION_VEGETALE.shp",
        "BDFORET_2A",
    );
    assert_eq!(
        request.code,
        r#"
from qgis.core import QgsProject, QgsVectorLayer
project = QgsProject.instance()
project.read("resources/QGIS/test/test.qgz")
layer = QgsVectorLayer("resources/QGIS/test/Vegetation/FORMATION_VEGETALE.shp", "BDFORET_2A", "ogr")
if not layer.isValid():
    raise Exception("Layer not valid")
else:
    project.addMapLayer(layer)
project.write(project.fileName())
"#
    );
    assert_eq!(
        request.success_message,
        r#"Layer BDFORET_2A loaded to project resources/QGIS/test/test.qgz"#
    );
}

#[test]
fn create_tree_group_request() {
    let request = create_tree_group("resources/QGIS/test/test.qgz");
    assert_eq!(
        request.code,
        r#"
from qgis.core import QgsProject, QgsLayerTreeGroup
project = QgsProject.instance()
project.read("resources/QGIS/test/test.qgz")
root = project.layerTreeRoot()
group = root.addGroup("combustion")
group.addGroup("BDTOPO")
group.addGroup("Vegetation")
project.write(project.fileName())
"#
    );
    assert_eq!(
        request.success_message,
        r#"Group 'combustion' created in project resources/QGIS/test/test.qgz"#
    );
}

#[test]
fn setup_basic_veg_layer_request() {
    let request = setup_basic_veg_layer("resources/QGIS/test/test.qgz", "BDFORET");
    assert_eq!(
        request.code,
        r#"
from qgis.core import QgsProject, QgsCategorizedSymbolRenderer, QgsField, QgsFillSymbol, QgsRendererCategory, QgsLayerTreeGroup
from qgis.PyQt.QtGui import QColor

project = QgsProject.instance()
project.read("resources/QGIS/test/test.qgz")

layer = project.mapLayersByName("BDFORET")
if not layer:
    raise Exception("Layer not found")
layer = layer[0]

root = project.layerTreeRoot()
combustion_group = root.findGroup('combustion')
vegetation_group = combustion_group.findGroup('Vegetation')

if not vegetation_group:
    raise Exception("Group 'Vegetation' not found")
layer_node = root.findLayer(layer.id())
if layer_node:
    parent = layer_node.parent()
    parent.removeChildNode(layer_node)

vegetation_group.addLayer(layer)
essence_field_index = layer.fields().indexFromName('ESSENCE')
if essence_field_index == -1:
    raise Exception("'ESSENCE' field not found")

unique_values = layer.uniqueValues(essence_field_index)

categories = []
for value in unique_values:
    if str(value) in ['Feuillus', 'Châtaignier', 'Chênes sempervirents', 'Chênes décidus', 'Hêtre']:
        symbol = QgsFillSymbol.createSimple({'color': '80,200,120,255', 'outline_style': 'no'})
    elif str(value) in ['NC', 'NR']:
        symbol = QgsFillSymbol.createSimple({'color': '25,50,60,255', 'outline_style': 'no'})
    else:
        symbol = QgsFillSymbol.createSimple({'color': '50,200,80,255', 'outline_style': 'no'})
    category = QgsRendererCategory(value, symbol, str(value))
    categories.append(category)

renderer = QgsCategorizedSymbolRenderer('ESSENCE', categories)
layer.setRenderer(renderer)
layer.triggerRepaint()
project.write(project.fileName())
"#
    );
    assert_eq!(
        request.success_message,
        r#"Layer BDFORET in project resources/QGIS/test/test.qgz categorized by ESSENCE, moved to 'combustion' group, and processed successfully"#
    );
}

#[test]
fn setup_basic_topo_layer_request() {
    let request = setup_basic_topo_layer("resources/QGIS/test/test.qgz", "COURS_D_EAU");
    assert_eq!(
        request.code,
        r#"
from qgis.core import QgsProject, QgsSimpleLineSymbolLayer, QgsSimpleFillSymbolLayer, QgsSymbol, QgsLayerTreeGroup
from qgis.PyQt.QtGui import QColor

project = QgsProject.instance()
project.read("resources/QGIS/test/test.qgz")
layer = project.mapLayersByName("COURS_D_EAU")
if not layer:
    raise Exception(f"Layer 'COURS_D_EAU' not found in the project 'resources/QGIS/test/test.qgz'")
layer = layer[0]

root = project.layerTreeRoot()
combustion_group = root.findGroup('combustion')
bdtopo_group = combustion_group.findGroup('BDTOPO')

if not bdtopo_group:
    raise Exception("Group 'BDTOPO' not found")

layer_node = root.findLayer(layer.id())
if layer_node:
    current_parent = layer_node.parent()
    current_parent.removeChildNode(layer_node)
    bdtopo_group.addLayer(layer)
try:
    if layer.name() in ["COURS_D_EAU", "TRONCON_DE_ROUTE", "TRONCON_DE_VOIE_FERREE"]:
        symbol = QgsSymbol.defaultSymbol(layer.geometryType())
        symbol.deleteSymbolLayer(0)
        symbol_layer = QgsSimpleLineSymbolLayer.create({'color': '0,0,0,255', 'width': '0,46000'})
        if symbol_layer:
            symbol.appendSymbolLayer(symbol_layer)
        else:
            raise Exception("Failed to create line symbol layer")
    else:
        symbol = QgsSymbol.defaultSymbol(layer.geometryType())
        symbol.deleteSymbolLayer(0)
        symbol_layer = QgsSimpleFillSymbolLayer.create({'color': '0,0,0,255', 'outline_style': 'no'})
        if symbol_layer:
            symbol.appendSymbolLayer(symbol_layer)
        else:
            raise Exception("Failed to create fill symbol layer")
    layer.renderer().setSymbol(symbol)
    layer.triggerRepaint()
    print(f"Styling applied to the layer 'COURS_D_EAU'.")
except Exception as e:
    raise Exception(f"Error applying styling to layer 'COURS_D_EAU': {str(e)}")
project.write(project.fileName())
"#
    );
    assert_eq!(
        request.success_message,
        r#"Layer 'COURS_D_EAU' in project 'resources/QGIS/test/test.qgz' categorized and moved to group 'combustion/BDTOPO' successfully."#
    );
}

#[test]
fn get_layer_fields_by_category_program() {
    let request = get_layer_fields_by_category("p.qgz", "BDFORET", "ESSENCE");
    assert_eq!(
        request,
        r#"
from qgis.core import QgsProject
project = QgsProject.instance()
project.read("p.qgz")
layer = project.mapLayersByName("BDFORET")
if not layer:
    raise Exception("Layer not found")
layer = layer[0]
category_field_index = layer.fields().indexFromName("ESSENCE")
if category_field_index == -1:
    raise Exception("Category field not found")
unique_values = list(layer.uniqueValues(category_field_index))
unique_values
"#
    );
}

#[test]
fn edit_layer_field_color_request() {
    let request = edit_layer_field_color("p.qgz", "BDFORET", "ESSENCE", "Hêtre", "1,2,3,255");
    assert_eq!(
        request.code,
        r#"
from qgis.core import QgsProject, QgsCategorizedSymbolRenderer, QgsRendererCategory, QgsFillSymbol
from qgis.PyQt.QtGui import QColor
project = QgsProject.instance()
project.read("p.qgz")
layer = project.mapLayersByName("BDFORET")
if not layer:
    raise Exception("Layer not found")
layer = layer[0]
category_field_index = layer.fields().indexFromName("ESSENCE")
if category_field_index == -1:
    raise Exception("Category field not found")
unique_values = layer.uniqueValues(category_field_index)
categories = []
for value in unique_values:
    if str(value) == "Hêtre":
        symbol = QgsFillSymbol.createSimple({'color': '1,2,3,255', 'outline_style': 'no'})
    else:
        symbol = QgsFillSymbol.createSimple({'color': '50,200,80,255', 'outline_style': 'no'})
    category = QgsRendererCategory(value, symbol, str(value))
    categories.append(category)

renderer = QgsCategorizedSymbolRenderer('ESSENCE', categories)
layer.setRenderer(renderer)
layer.triggerRepaint()
project.write(project.fileName())
"#
    );
    assert_eq!(
        request.success_message,
        r#"Field color for Hêtre in layer BDFORET in project p.qgz updated to 1,2,3,255 for category ESSENCE"#
    );
}

#[test]
fn export_map_to_jpg_request() {
    let corners = [1200000.0f64, 6100000.5, 1210000.0, 6110000.25];
    let text: Vec<String> = corners.iter().map(|n| format!("{}", n)).collect();
    let request = export_map_to_jpg("corse", &text[0], &text[1], &text[2], &text[3], "preview");
    assert_eq!(
        request.code,
        r#"
from qgis.core import QgsProject, QgsPrintLayout, QgsLayoutItemMap, QgsLayoutExporter, QgsCoordinateReferenceSystem, QgsRectangle
from qgis.PyQt.QtCore import QSize, QRectF
try:
    project = QgsProject.instance()
    project.read("resources/QGIS/corse.qgz")
    layout = QgsPrintLayout(project)
    layout.initializeDefaults()
    map_item = QgsLayoutItemMap(layout)
    layout.addLayoutItem(map_item)
    map_rect = QgsRectangle(1200000, 6100000.5, 1210000, 6110000.25)
    map_item.setExtent(map_rect)
    map_item.setCrs(QgsCoordinateReferenceSystem('EPSG:2154'))
    map_item.setScale(25000)
    map_item.setFixedSize(QSize(400, 400))
    map_item.attemptMove(QRectF(5, 5, 200, 150))
    exporter = QgsLayoutExporter(layout)
    export_settings = QgsLayoutExporter.ImageExportSettings()
    export_settings.dpi = 63.5
    result = exporter.exportToImage("resources/QGIS/preview.jpg", export_settings)
    if result == QgsLayoutExporter.Success:
        print("Map exported successfully to " + "resources/QGIS/preview.jpg")
    else:
        print("Failed to export map")
except Exception as e:
    print("An error occurred: " + str(e))
"#
    );
    assert_eq!(request.success_message, "Map exported successfully to resources/QGIS/preview.jpg");
    assert_eq!(format!("{}", 25000.0f64), "25000");
    assert_eq!(format!("{}", 63.5f64), "63.5");
}
