//! The departements of France with their codes and names, the command lines
//! by which archives are handled through 7-Zip, and the reading of what
//! 7-Zip and the projects' directory list.
//!
//! Running a command is left to the host; what it is made of and what its
//! output means is decided here.

use vstd::prelude::*;
use vstd::slice::slice_subrange;
use vstd::string::StringExecFns;
use crate::dependency::CommandLine;
use crate::qgis_api_wrapper::{project_folder, project_folder_of};
use crate::text::{
    chars_of,
    contains_text,
    find_last,
    is_blank,
    is_last_occurrence,
    last_word,
    last_word_of,
    lemma_last_occurrence,
    lemma_last_word,
    lemma_trimmed,
    lines_of,
    occurs_in,
    same_text,
    split_lines,
    text_of,
    trimmed,
    trimmed_span_of,
};
use crate::web_request::{archive_path, archive_path_of};

verus! {

/// The departements, each with its code and its name.
pub const DEPARTEMENTS: [(&'static str, &'static str); 101] = [
    ("01", "Ain"),
    ("02", "Aisne"),
    ("03", "Allier"),
    ("04", "Alpes-de-Haute-Provence"),
    ("05", "Hautes-Alpes"),
    ("06", "Alpes-Maritimes"),
    ("07", "Ardèche"),
    ("08", "Ardennes"),
    ("09", "Ariège"),
    ("10", "Aube"),
    ("11", "Aude"),
    ("12", "Aveyron"),
    ("13", "Bouches-du-Rhône"),
    ("14", "Calvados"),
    ("15", "Cantal"),
    ("16", "Charente"),
    ("17", "Charente-Maritime"),
    ("18", "Cher"),
    ("19", "Corrèze"),
    ("2A", "Corse-du-Sud"),
    ("2B", "Haute-Corse"),
    ("21", "Côte-d'Or"),
    ("22", "Côtes-d'Armor"),
    ("23", "Creuse"),
    ("24", "Dordogne"),
    ("25", "Doubs"),
    ("26", "Drôme"),
    ("27", "Eure"),
    ("28", "Eure-et-Loir"),
    ("29", "Finistère"),
    ("30", "Gard"),
    ("31", "Haute-Garonne"),
    ("32", "Gers"),
    ("33", "Gironde"),
    ("34", "Hérault"),
    ("35", "Ille-et-Vilaine"),
    ("36", "Indre"),
    ("37", "Indre-et-Loire"),
    ("38", "Isère"),
    ("39", "Jura"),
    ("40", "Landes"),
    ("41", "Loir-et-Cher"),
    ("42", "Loire"),
    ("43", "Haute-Loire"),
    ("44", "Loire-Atlantique"),
    ("45", "Loiret"),
    ("46", "Lot"),
    ("47", "Lot-et-Garonne"),
    ("48", "Lozère"),
    ("49", "Maine-et-Loire"),
    ("50", "Manche"),
    ("51", "Marne"),
    ("52", "Haute-Marne"),
    ("53", "Mayenne"),
    ("54", "Meurthe-et-Moselle"),
    ("55", "Meuse"),
    ("56", "Morbihan"),
    ("57", "Moselle"),
    ("58 ", "Nièvre"),
    ("59", "Nord"),
    ("60", "Oise"),
    ("61", "Orne"),
    ("62", "Pas-de-Calais"),
    ("63", "Puy-de-Dôme"),
    ("64", "Pyrénées-Atlantiques"),
    ("65", "Hautes-Pyrénées"),
    ("66", "Pyrénées-Orientales"),
    ("67", "Bas-Rhin"),
    ("68", "Haut-Rhin"),
    ("69", "Rhône"),
    ("70", "Haute-Saône"),
    ("71", "Saône-et-Loire"),
    ("72", "Sarthe"),
    ("73", "Savoie"),
    ("74", "Haute-Savoie"),
    ("75", "Paris"),
    ("76", "Seine-Maritime"),
    ("77", "Seine-et-Marne"),
    ("78", "Yvelines"),
    ("79", "Deux-Sèvres"),
    ("80", "Somme"),
    ("81", "Tarn"),
    ("82", "Tarn-et-Garonne"),
    ("83", "Var"),
    ("84", "Vaucluse"),
    ("85", "Vendée"),
    ("86", "Vienne"),
    ("87", "Haute-Vienne"),
    ("88", "Vosges"),
    ("89", "Yonne"),
    ("90", "Territoire de Belfort"),
    ("91", "Essonne"),
    ("92", "Hauts-de-Seine"),
    ("93", "Seine-Saint-Denis"),
    ("94", "Val-de-Marne"),
    ("95", "Val-d'Oise"),
    ("971", "Guadeloupe"),
    ("972", "Martinique"),
    ("973", "Guyane"),
    ("974", "La Réunion"),
    ("976", "Mayotte"),
];

/// The table of the departements, in the order in which the lists of this
/// module give them.
pub open spec fn departements() -> Seq<(&'static str, &'static str)> {
    DEPARTEMENTS@
}

/// Whether entry `i` of the table is the first that has the code `code`.
pub open spec fn is_first_with_code(code: Seq<char>, i: int) -> bool {
    &&& 0 <= i < departements().len()
    &&& departements()[i].0@ == code
    &&& forall|j: int| 0 <= j < i ==> (#[trigger] departements()[j]).0@ != code
}

/// Whether entry `i` of the table is the first that has the name `name`.
pub open spec fn is_first_with_name(name: Seq<char>, i: int) -> bool {
    &&& 0 <= i < departements().len()
    &&& departements()[i].1@ == name
    &&& forall|j: int| 0 <= j < i ==> (#[trigger] departements()[j]).1@ != name
}

/// The departements as pairs of code and name, in the order of the table.
pub fn get_departement_list() -> (list: Vec<(String, String)>)
    ensures
        list@.len() == departements().len(),
        forall|i: int|
            0 <= i < list@.len() ==> (#[trigger] list@[i]).0@ == departements()[i].0@ && list@[i].1@
                == departements()[i].1@,
{
    let table = DEPARTEMENTS;
    let mut list: Vec<(String, String)> = Vec::with_capacity(table.len());
    let mut i: usize = 0;
    while i < table.len()
        invariant
            i <= table@.len(),
            table@ == departements(),
            list@.len() == i,
            forall|k: int|
                0 <= k < i ==> (#[trigger] list@[k]).0@ == departements()[k].0@ && list@[k].1@
                    == departements()[k].1@,
        decreases table@.len() - i,
    {
        let entry = table[i];
        list.push((entry.0.to_owned(), entry.1.to_owned()));
        i += 1;
    }
    list
}

/// The name of the departement with the code `code`, if there is one.
pub fn get_departement_name(code: &str) -> (name: Option<String>)
    ensures
        name is Some <==> exists|i: int|
            0 <= i < departements().len() && (#[trigger] departements()[i]).0@ == code@,
        name is Some ==> exists|i: int|
            is_first_with_code(code@, i) && name->0@ == (#[trigger] departements()[i]).1@,
{
    let table = DEPARTEMENTS;
    let mut i: usize = 0;
    while i < table.len()
        invariant
            i <= table@.len(),
            table@ == departements(),
            forall|k: int| 0 <= k < i ==> (#[trigger] departements()[k]).0@ != code@,
        decreases table@.len() - i,
    {
        let entry = table[i];
        if same_text(entry.0, code) {
            assert(is_first_with_code(code@, i as int));
            return Some(entry.1.to_owned());
        }
        i += 1;
    }
    None
}

/// The code of the departement with the name `name`, if there is one.
pub fn get_departement_code(name: &str) -> (code: Option<String>)
    ensures
        code is Some <==> exists|i: int|
            0 <= i < departements().len() && (#[trigger] departements()[i]).1@ == name@,
        code is Some ==> exists|i: int|
            is_first_with_name(name@, i) && code->0@ == (#[trigger] departements()[i]).0@,
{
    let table = DEPARTEMENTS;
    let mut i: usize = 0;
    while i < table.len()
        invariant
            i <= table@.len(),
            table@ == departements(),
            forall|k: int| 0 <= k < i ==> (#[trigger] departements()[k]).1@ != name@,
        decreases table@.len() - i,
    {
        let entry = table[i];
        if same_text(entry.1, name) {
            assert(is_first_with_name(name@, i as int));
            return Some(entry.0.to_owned());
        }
        i += 1;
    }
    None
}

/// The names of the departements, in the order of the table.
pub fn get_departements_names() -> (names: Vec<String>)
    ensures
        names@.len() == departements().len(),
        forall|i: int| 0 <= i < names@.len() ==> (#[trigger] names@[i])@ == departements()[i].1@,
{
    let table = DEPARTEMENTS;
    let mut names: Vec<String> = Vec::with_capacity(table.len());
    let mut i: usize = 0;
    while i < table.len()
        invariant
            i <= table@.len(),
            table@ == departements(),
            names@.len() == i,
            forall|k: int| 0 <= k < i ==> (#[trigger] names@[k])@ == departements()[k].1@,
        decreases table@.len() - i,
    {
        let entry = table[i];
        names.push(entry.1.to_owned());
        i += 1;
    }
    names
}

/// The folder that one line of an archive's listing gives for a file: where
/// the line holds the file's name, and its last word holds it too, what
/// stands in that word in front of the last occurrence of the name.
pub open spec fn path_in_line(line: Seq<char>, file_name: Seq<char>) -> Option<Seq<char>> {
    if occurs_in(line, file_name) && !is_blank(line) && occurs_in(last_word(line), file_name) {
        Some(
            last_word(line).take(
                choose|at: int| is_last_occurrence(last_word(line), file_name, at),
            ),
        )
    } else {
        None
    }
}

/// The folder that the first of the lines to give one gives for a file.
pub open spec fn path_in_lines(lines: Seq<Seq<char>>, file_name: Seq<char>) -> Option<Seq<char>>
    decreases lines.len(),
{
    if lines.len() == 0 {
        None
    } else if path_in_line(lines[0], file_name) is Some {
        path_in_line(lines[0], file_name)
    } else {
        path_in_lines(lines.drop_first(), file_name)
    }
}

/// Reads one line of a listing as [`path_in_line`] says.
fn path_in(line: &[char], file_name: &[char]) -> (path: Option<String>)
    ensures
        path is Some <==> path_in_line(line@, file_name@) is Some,
        path is Some ==> Some(path->0@) == path_in_line(line@, file_name@),
{
    if !contains_text(line, file_name) {
        return None;
    }
    match last_word_of(line) {
        None => None,
        Some(span) => {
            let word = slice_subrange(line, span.start, span.end);
            proof {
                lemma_last_word(line@, span.start as int, span.end as int);
            }
            match find_last(word, file_name) {
                None => None,
                Some(at) => {
                    proof {
                        lemma_last_occurrence(word@, file_name@, at as int);
                        assert(word@.take(at as int) =~= word@.subrange(0, at as int));
                    }
                    Some(text_of(slice_subrange(word, 0, at)))
                },
            }
        },
    }
}

/// Finds in the listing of an archive the folder in which a file lies. The
/// listing is read line by line; the first line that gives a folder for the
/// file decides.
pub fn find_filepath_in_archive(listing: &str, file_name: &str) -> (path: Option<String>)
    ensures
        path is Some <==> path_in_lines(lines_of(listing@), file_name@) is Some,
        path is Some ==> Some(path->0@) == path_in_lines(lines_of(listing@), file_name@),
{
    let text = chars_of(listing);
    let name = chars_of(file_name);
    let lines = split_lines(text.as_slice());
    let ghost all = lines_of(listing@);
    let mut i: usize = 0;
    assert(all.skip(0) =~= all);
    while i < lines.len()
        invariant
            i <= lines@.len(),
            name@ == file_name@,
            all == lines_of(listing@),
            lines@.len() == all.len(),
            forall|k: int| 0 <= k < lines@.len() ==> (#[trigger] lines@[k])@ == all[k],
            path_in_lines(all, file_name@) == path_in_lines(all.skip(i as int), file_name@),
        decreases lines@.len() - i,
    {
        let found = path_in(lines[i].as_slice(), name.as_slice());
        proof {
            assert(lines@[i as int]@ == all[i as int]);
            assert(all.skip(i as int).len() > 0);
            assert(all.skip(i as int)[0] == all[i as int]);
            assert(all.skip(i as int).drop_first() =~= all.skip(i + 1));
        }
        if found.is_some() {
            return found;
        }
        i += 1;
    }
    None
}

/// A project found on disk, with the files that belong to it.
#[derive(Clone, Debug, PartialEq, Eq)]
pub struct ProjectEntry {
    pub name: String,
    pub preview_image_path: String,
    pub project_file_path: String,
}

/// The mathematical model of a [`ProjectEntry`].
pub struct ProjectEntryView {
    pub name: Seq<char>,
    pub preview_image_path: Seq<char>,
    pub project_file_path: Seq<char>,
}

impl View for ProjectEntry {
    type V = ProjectEntryView;

    open spec fn view(&self) -> ProjectEntryView {
        ProjectEntryView {
            name: self.name@,
            preview_image_path: self.preview_image_path@,
            project_file_path: self.project_file_path@,
        }
    }
}

/// The project that one line of a listing of the projects' directory names:
/// the line without the white space at its ends is the project's name, and
/// its files lie in the folder of that name.
pub open spec fn project_of_line(line: Seq<char>) -> ProjectEntryView {
    let name = trimmed(line);
    ProjectEntryView {
        name,
        preview_image_path: "resources/QGIS/"@ + name + "/"@ + "preview.png"@,
        project_file_path: "resources/QGIS/"@ + name + "/"@ + name + ".qgs"@,
    }
}

/// Reads a listing of the projects' directory: one project for every line,
/// in the order of the lines.
pub fn get_previous_projects(listing: &str) -> (projects: Vec<ProjectEntry>)
    ensures
        projects@.len() == lines_of(listing@).len(),
        forall|i: int|
            0 <= i < projects@.len() ==> (#[trigger] projects@[i])@ == project_of_line(
                lines_of(listing@)[i],
            ),
{
    let text = chars_of(listing);
    let lines = split_lines(text.as_slice());
    let mut projects: Vec<ProjectEntry> = Vec::with_capacity(lines.len());
    let mut i: usize = 0;
    while i < lines.len()
        invariant
            i <= lines@.len(),
            projects@.len() == i,
            lines@.len() == lines_of(listing@).len(),
            forall|k: int|
                0 <= k < lines@.len() ==> (#[trigger] lines@[k])@ == lines_of(listing@)[k],
            forall|k: int|
                0 <= k < i ==> (#[trigger] projects@[k])@ == project_of_line(lines_of(listing@)[k]),
        decreases lines@.len() - i,
    {
        let line = lines[i].as_slice();
        let span = trimmed_span_of(line);
        proof {
            lemma_trimmed(line@, span.start as int, span.end as int);
        }
        let name = text_of(slice_subrange(line, span.start, span.end));
        let mut folder = "resources/QGIS/".to_owned();
        folder.append(name.as_str());
        folder.append("/");
        let mut preview_image_path = folder.clone();
        preview_image_path.append("preview.png");
        let mut project_file_path = folder;
        project_file_path.append(name.as_str());
        project_file_path.append(".qgs");
        projects.push(ProjectEntry { name, preview_image_path, project_file_path });
        i += 1;
    }
    projects
}

/// The texts of a list of arguments.
pub open spec fn argument_texts(arguments: Seq<String>) -> Seq<Seq<char>> {
    arguments.map_values(|a: String| a@)
}

/// Makes the switch that tells 7-Zip where to write.
fn output_switch(directory: &str) -> (switch: String)
    ensures
        switch@ == "-o"@ + directory@,
{
    let mut switch = "-o".to_owned();
    switch.append(directory);
    switch
}

/// The command that packs a folder into an archive named after it. It is to
/// be run in the directory in which the archive shall lie.
pub fn compress_folder(folder_name: &str) -> (command: CommandLine)
    ensures
        command.program@ == "7z"@,
        argument_texts(command.arguments@) == seq!["a"@, folder_name@ + ".zip"@, folder_name@],
{
    let mut archive = folder_name.to_owned();
    archive.append(".zip");
    let mut arguments: Vec<String> = Vec::new();
    arguments.push("a".to_owned());
    arguments.push(archive);
    arguments.push(folder_name.to_owned());
    assert(argument_texts(arguments@) =~= seq!["a"@, folder_name@ + ".zip"@, folder_name@]);
    CommandLine { program: "7z".to_owned(), arguments }
}

/// The command that unpacks an archive into a directory.
pub fn extract_archive(archive_path: &str, destination: &str) -> (command: CommandLine)
    ensures
        command.program@ == "7z"@,
        argument_texts(command.arguments@) == seq!["x"@, "-o"@ + destination@, archive_path@],
{
    let mut arguments: Vec<String> = Vec::new();
    arguments.push("x".to_owned());
    arguments.push(output_switch(destination));
    arguments.push(archive_path.to_owned());
    assert(argument_texts(arguments@) =~= seq!["x"@, "-o"@ + destination@, archive_path@]);
    CommandLine { program: "7z".to_owned(), arguments }
}

/// The command that lists what an archive holds.
pub fn list_archive(archive_path: &str) -> (command: CommandLine)
    ensures
        command.program@ == "7z"@,
        argument_texts(command.arguments@) == seq!["l"@, archive_path@],
{
    let mut arguments: Vec<String> = Vec::new();
    arguments.push("l".to_owned());
    arguments.push(archive_path.to_owned());
    assert(argument_texts(arguments@) =~= seq!["l"@, archive_path@]);
    CommandLine { program: "7z".to_owned(), arguments }
}

/// The command that unpacks every file of a given name from an archive,
/// wherever in the archive it lies, into one directory.
pub fn extract_specific_file(archive_path: &str, file_name: &str, output_dir: &str) -> (command:
    CommandLine)
    ensures
        command.program@ == "7z"@,
        argument_texts(command.arguments@) == seq![
            "e"@,
            archive_path@,
            "-r"@,
            file_name@,
            "-o"@ + output_dir@,
        ],
{
    let mut arguments: Vec<String> = Vec::new();
    arguments.push("e".to_owned());
    arguments.push(archive_path.to_owned());
    arguments.push("-r".to_owned());
    arguments.push(file_name.to_owned());
    arguments.push(output_switch(output_dir));
    assert(argument_texts(arguments@) =~= seq![
        "e"@,
        archive_path@,
        "-r"@,
        file_name@,
        "-o"@ + output_dir@,
    ]);
    CommandLine { program: "7z".to_owned(), arguments }
}

/// Whether an entry of an unpacked folder is to be kept: without a filter
/// every entry is; with one, only the entries whose name, without its
/// extension, is the filter.
pub fn passes_filter(file_stem: &str, filter: Option<&str>) -> (kept: bool)
    ensures
        kept == (filter is None || filter->0@ == file_stem@),
{
    match filter {
        None => true,
        Some(wanted) => same_text(file_stem, wanted),
    }
}

/// Where the layers of a database are taken from and where they are put.
#[derive(Clone, Debug, PartialEq, Eq)]
pub struct ExtractionPlan {
    pub archive_path: String,
    pub output_dir: String,
}

/// Plans the extraction of a layer: the archive of the database for the
/// departement is the source, the folder of the project the destination.
pub fn layer_full_extraction(db_name: &str, code: &str, project_name: &str) -> (plan: ExtractionPlan)
    ensures
        plan.archive_path@ == archive_path_of(db_name@, code@),
        plan.output_dir@ == project_folder_of(project_name@),
{
    ExtractionPlan {
        archive_path: archive_path(db_name, code),
        output_dir: project_folder(project_name),
    }
}

/// Writes the report of a layer that its archive does not hold.
pub fn missing_folder_message(layer_name: &str, archive_path: &str) -> (text: String)
    ensures
        text@ == "Folder '"@ + layer_name@ + "' not found in archive '"@ + archive_path@ + "'"@,
{
    let mut text = "Folder '".to_owned();
    text.append(layer_name);
    text.append("' not found in archive '");
    text.append(archive_path);
    text.append("'");
    text
}

} // verus!
