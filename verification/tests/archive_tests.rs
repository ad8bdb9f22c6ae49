use eve_mapmaker::dependency::CommandLine;
use eve_mapmaker::utils::{
    compress_folder, extract_archive, extract_specific_file, find_filepath_in_archive,
    get_previous_projects, layer_full_extraction, list_archive, missing_folder_message,
    passes_filter, ExtractionPlan, ProjectEntry,
};

const LISTING: &str = "\r\n7-Zip [64] 16.02 : Copyright (c) 1999-2016 Igor Pavlov : 2016-05-21\r\n\r\nScanning the drive for archives:\r\n1 file, 1234 bytes (2 KiB)\r\n\r\nListing archive: tmp/BDFORET_2A.7z\r\n\r\n   Date      Time    Attr         Size   Compressed  Name\r\n------------------- ----- ------------ ------------  ------------------------\r\n2017-05-10 10:00:00 D....            0            0  BDFORET_2-0__SHP_LAMB93_D02A_2017-05-10\r\n2017-05-10 10:00:00 D....            0            0  BDFORET_2-0__SHP_LAMB93_D02A_2017-05-10/BDFORET\r\n2017-05-10 10:00:00 ....A       123456        65432  BDFORET_2-0__SHP_LAMB93_D02A_2017-05-10/BDFORET/1_DONNEES_LIVRAISON/BDF_2-0_SHP_LAMB93_D02A/FORMATION_VEGETALE.shp\r\n2017-05-10 10:00:00 ....A          456          321  BDFORET_2-0__SHP_LAMB93_D02A_2017-05-10/BDFORET/1_DONNEES_LIVRAISON/BDF_2-0_SHP_LAMB93_D02A/FORMATION_VEGETALE.shx\r\n------------------- ----- ------------ ------------  ------------------------\r\n";

fn reference_find(listing: &str, file_name: &str) -> Option<String> {
    for line in listing.lines() {
        if line.contains(file_name) {
            let parts: Vec<&str> = line.split_whitespace().collect();
            if let Some(path) = parts.last() {
                let path_str = path.to_string();
                if let Some(pos) = path_str.rfind(file_name) {
                    return Some(path_str[..pos].to_string());
                }
            }
        }
    }
    None
}

fn strings(texts: &[&str]) -> Vec<String> {
    texts.iter().map(|t| t.to_string()).collect()
}

#[test]
fn test_compression_successfull() {
    let directory_path = "resources";
    let folder_name = "data_2A";
    let command = compress_folder(folder_name);
    assert_eq!(
        command,
        CommandLine { program: "7z".to_string(), arguments: strings(&["a", "data_2A.zip", "data_2A"]) }
    );
    // Run in the folder's own directory, the command leaves the archive there.
    assert_eq!(format!("{}/{}", directory_path, command.arguments[1]), "resources/data_2A.zip");
}

#[test]
fn test_compression_successfull_into_tmp() {
    let directory_path = "resources";
    let folder_name = "data_2A";
    let command = compress_folder(folder_name);
    assert_eq!(command.program, "7z");
    assert_eq!(command.arguments, strings(&["a", "data_2A.zip", "data_2A"]));
    // Run in another directory, the command leaves the archive in that one.
    assert_ne!(directory_path, "tmp");
    assert_eq!(format!("{}/{}", "tmp", command.arguments[1]), "tmp/data_2A.zip");
}

#[test]
fn test_decompression_successfull() {
    let archive_path = "resources/data_2A.zip";
    let parent = std::path::Path::new(archive_path).parent().unwrap().to_str().unwrap();
    let command = extract_archive(archive_path, parent);
    assert_eq!(
        command,
        CommandLine {
            program: "7z".to_string(),
            arguments: strings(&["x", "-oresources", "resources/data_2A.zip"]),
        }
    );
    assert_eq!(format!("{}/data_2A", &command.arguments[1][2..]), "resources/data_2A");
}

#[test]
fn test_decompression_successfull_into_tmp() {
    let archive_path = "resources/data_2A.zip";
    let command = extract_archive(archive_path, "tmp");
    assert_eq!(command.program, "7z");
    assert_eq!(command.arguments, strings(&["x", "-otmp", "resources/data_2A.zip"]));
    assert_eq!(format!("{}/data_2A", &command.arguments[1][2..]), "tmp/data_2A");
}

#[test]
fn test_extract_specific_file_success() {
    let archive_path = "tmp/BDFORET_2A.7z";
    let file_name = "FORMATION_VEGETALE.shp";
    let output_dir = "resources/QGIS/test";
    let command = extract_specific_file(archive_path, file_name, output_dir);
    assert_eq!(
        command,
        CommandLine {
            program: "7z".to_string(),
            arguments: strings(&[
                "e",
                "tmp/BDFORET_2A.7z",
                "-r",
                "FORMATION_VEGETALE.shp",
                "-oresources/QGIS/test"
            ]),
        }
    );
    assert_eq!(
        format!("{}/{}", &command.arguments[4][2..], command.arguments[3]),
        "resources/QGIS/test/FORMATION_VEGETALE.shp"
    );
}

#[test]
fn test_find_file_in_archive_success() {
    let archive_path = "tmp/BDFORET_2A.7z";
    let file_name = "FORMATION_VEGETALE.shp";
    assert!(LISTING.contains(&format!("Listing archive: {}", archive_path)));
    let result = find_filepath_in_archive(LISTING, file_name);
    assert!(result.is_some());
    assert_eq!(
        result.unwrap(),
        "BDFORET_2-0__SHP_LAMB93_D02A_2017-05-10/BDFORET/1_DONNEES_LIVRAISON/BDF_2-0_SHP_LAMB93_D02A/"
    );
}

#[test]
fn list_archive_command() {
    assert_eq!(
        list_archive("tmp/BDFORET_2A.7z"),
        CommandLine { program: "7z".to_string(), arguments: strings(&["l", "tmp/BDFORET_2A.7z"]) }
    );
}

#[test]
fn find_filepath_of_a_folder() {
    assert_eq!(
        find_filepath_in_archive(LISTING, "BDFORET/1_DONNEES"),
        Some("BDFORET_2-0__SHP_LAMB93_D02A_2017-05-10/".to_string())
    );
    assert_eq!(find_filepath_in_archive(LISTING, "BDFORET_2-0"), Some("".to_string()));
}

#[test]
fn find_filepath_of_a_missing_file() {
    assert_eq!(find_filepath_in_archive(LISTING, "COMMUNE.shp"), None);
    assert_eq!(find_filepath_in_archive("", "FORMATION_VEGETALE.shp"), None);
    assert_eq!(find_filepath_in_archive("\n\n  \n", "x"), None);
}

#[test]
fn find_filepath_looks_at_the_last_word_of_a_line() {
    // The name stands in the line but not in its last word: the line is passed over.
    let listing = "FILE.shp is mentioned here\nd.... 0 0 folder/FILE.shp\n";
    assert_eq!(find_filepath_in_archive(listing, "FILE.shp"), Some("folder/".to_string()));
    // The name occurs twice in the last word: what stands before the last one counts.
    let listing = "x a/FILE/b/FILE";
    assert_eq!(find_filepath_in_archive(listing, "FILE"), Some("a/FILE/b/".to_string()));
    // The first line that gives a folder decides.
    let listing = "1 one/F\n2 two/F\n";
    assert_eq!(find_filepath_in_archive(listing, "F"), Some("one/".to_string()));
}

#[test]
fn find_filepath_agrees_with_the_plain_reading() {
    let listings = [
        LISTING,
        "",
        "one line dir/NAME",
        "NAME\n\nx NAME y\r\nz dir/sub/NAME.ext  \r\n",
        "a NAME b\n",
        "\u{3000}wide\u{3000}p/NAME\u{3000}\n",
    ];
    let names = ["NAME", "FORMATION_VEGETALE.shp", "", "dir", "x", "D02A", ".ext", "NAME.ext"];
    for listing in listings {
        for name in names {
            assert_eq!(
                find_filepath_in_archive(listing, name),
                reference_find(listing, name),
                "{:?} in {:?}",
                name,
                listing
            );
        }
    }
}

#[test]
fn previous_projects_are_read_line_by_line() {
    let projects = get_previous_projects("corse\nparis 2024\n");
    assert_eq!(
        projects,
        vec![
            ProjectEntry {
                name: "corse".to_string(),
                preview_image_path: "resources/QGIS/corse/preview.png".to_string(),
                project_file_path: "resources/QGIS/corse/corse.qgs".to_string(),
            },
            ProjectEntry {
                name: "paris 2024".to_string(),
                preview_image_path: "resources/QGIS/paris 2024/preview.png".to_string(),
                project_file_path: "resources/QGIS/paris 2024/paris 2024.qgs".to_string(),
            },
        ]
    );
}

#[test]
fn previous_projects_names_are_trimmed() {
    let projects = get_previous_projects("  corse \r\n\tardèche\t\r\n");
    let names: Vec<&str> = projects.iter().map(|p| p.name.as_str()).collect();
    assert_eq!(names, vec!["corse", "ardèche"]);
    assert_eq!(projects[1].project_file_path, "resources/QGIS/ardèche/ardèche.qgs");
}

#[test]
fn previous_projects_of_an_empty_listing() {
    assert!(get_previous_projects("").is_empty());
    let blank = get_previous_projects("\n");
    assert_eq!(blank.len(), 1);
    assert_eq!(blank[0].name, "");
    assert_eq!(blank[0].preview_image_path, "resources/QGIS//preview.png");
    assert_eq!(blank[0].project_file_path, "resources/QGIS//.qgs");
}

#[test]
fn previous_projects_agree_with_the_plain_reading() {
    let listings = ["a\nb\nc", " a \n\n b b \r\n", "x", "\r\n", "one\ttwo\n three\u{A0}\n"];
    for listing in listings {
        let projects = get_previous_projects(listing);
        let expected: Vec<String> = listing.lines().map(|l| l.trim().to_string()).collect();
        let names: Vec<String> = projects.iter().map(|p| p.name.clone()).collect();
        assert_eq!(names, expected);
        for project in &projects {
            let folder = format!("resources/QGIS/{}/", project.name);
            assert_eq!(project.preview_image_path, format!("{}preview.png", folder));
            assert_eq!(project.project_file_path, format!("{}{}.qgs", folder, project.name));
        }
    }
}

#[test]
fn filter_keeps_the_named_entries_only() {
    assert!(passes_filter("BATIMENT", None));
    assert!(passes_filter("BATIMENT", Some("BATIMENT")));
    assert!(!passes_filter("BATIMENT", Some("RESERVOIR")));
    assert!(!passes_filter("BATIMENT", Some("batiment")));
    assert!(passes_filter("", Some("")));
}

#[test]
fn layer_full_extraction_plans_source_and_destination() {
    assert_eq!(
        layer_full_extraction("BDFORET", "2A", "corse/Vegetation"),
        ExtractionPlan {
            archive_path: "tmp/BDFORET_2A.7z".to_string(),
            output_dir: "resources/QGIS/corse/Vegetation".to_string(),
        }
    );
}

#[test]
fn missing_folder_is_reported_with_layer_and_archive() {
    assert_eq!(
        missing_folder_message("FORMATION_VEGETALE", "tmp/BDFORET_2A.7z"),
        "Folder 'FORMATION_VEGETALE' not found in archive 'tmp/BDFORET_2A.7z'"
    );
}
