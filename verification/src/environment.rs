//! The environment that the tools are started in.

use vstd::prelude::*;

use crate::text::{join3, owned};

verus! {

/// The platforms that the converter tells apart.
#[derive(Clone, Copy, Debug, PartialEq, Eq)]
pub enum Platform {
    Linux,
    Macos,
    Windows,
    Other,
}

/// A variable of the environment.
#[derive(Debug, PartialEq, Eq)]
pub struct Variable<S = String> {
    pub name: S,
    pub value: S,
}

impl View for Variable<String> {
    type V = Variable<Seq<char>>;

    open spec fn view(&self) -> Variable<Seq<char>> {
        Variable { name: self.name@, value: self.value@ }
    }
}

/// The variable that lists the directories of shared libraries, where the
/// platform has one.
pub open spec fn library_variable(platform: Platform) -> Option<Seq<char>> {
    match platform {
        Platform::Linux => Some("LD_LIBRARY_PATH"@),
        Platform::Macos => Some("DYLD_LIBRARY_PATH"@),
        Platform::Windows => None,
        Platform::Other => None,
    }
}

/// A list of directories with one more at its front.
pub open spec fn in_front(dir: Seq<char>, list: Seq<char>) -> Seq<char> {
    if list.len() == 0 {
        dir
    } else {
        dir + ":"@ + list
    }
}

/// The name of the variable that lists the directories of shared libraries.
pub fn library_variable_name(platform: Platform) -> (name: Option<&'static str>)
    ensures
        match name {
            Some(n) => library_variable(platform) == Some(n@),
            None => library_variable(platform) is None,
        },
{
    match platform {
        Platform::Linux => Some("LD_LIBRARY_PATH"),
        Platform::Macos => Some("DYLD_LIBRARY_PATH"),
        Platform::Windows => None,
        Platform::Other => None,
    }
}

/// The variable to start PotreeConverter with, so that the libraries beside it
/// are found first; `existing` is the list in force, empty where there is none.
pub fn potree_variable(platform: Platform, binary_dir: &str, existing: &str) -> (r: Option<Variable>)
    ensures
        match r {
            Some(v) => library_variable(platform) == Some(v@.name) && v@.value == in_front(
                binary_dir@,
                existing@,
            ),
            None => library_variable(platform) is None,
        },
{
    match library_variable_name(platform) {
        Some(name) => {
            let value = if existing.is_empty() {
                owned(binary_dir)
            } else {
                join3(binary_dir, ":", existing)
            };
            Some(Variable { name: owned(name), value })
        },
        None => None,
    }
}

/// The value of a variable that PDAL is started with: a text, or a directory
/// below the one that PDAL's own directory stands in, by its parts.
#[derive(Debug, PartialEq, Eq)]
pub enum PdalValue {
    Text(String),
    Directory(Vec<String>),
}

/// A variable that PDAL is started with.
#[derive(Debug, PartialEq, Eq)]
pub struct PdalVariable {
    pub name: String,
    pub value: PdalValue,
}

/// The value of a variable, as contracts speak of it.
pub enum PdalValueView {
    Text(Seq<char>),
    Directory(Seq<Seq<char>>),
}

/// A variable, as contracts speak of it.
pub struct PdalVariableView {
    pub name: Seq<char>,
    pub value: PdalValueView,
}

impl View for PdalVariable {
    type V = PdalVariableView;

    open spec fn view(&self) -> PdalVariableView {
        PdalVariableView {
            name: self.name@,
            value: match self.value {
                PdalValue::Text(text) => PdalValueView::Text(text@),
                PdalValue::Directory(parts) => PdalValueView::Directory(parts_view(parts@)),
            },
        }
    }
}

/// The parts of a directory with their texts as sequences.
pub open spec fn parts_view(parts: Seq<String>) -> Seq<Seq<char>> {
    parts.map_values(|part: String| part@)
}

/// Variables with their texts as sequences.
pub open spec fn pdal_view(variables: Seq<PdalVariable>) -> Seq<PdalVariableView> {
    variables.map_values(|v: PdalVariable| v@)
}

/// The directory of the data that GDAL needs.
pub open spec fn gdal_directory() -> Seq<Seq<char>> {
    seq!["share"@, "gdal"@]
}

/// The directory of the data that PROJ needs.
pub open spec fn proj_directory() -> Seq<Seq<char>> {
    seq!["share"@, "proj"@]
}

/// The parts of the directory of the data that GDAL needs.
pub fn gdal_parts() -> (parts: Vec<String>)
    ensures
        parts_view(parts@) == gdal_directory(),
{
    let mut parts: Vec<String> = Vec::new();
    parts.push(owned("share"));
    parts.push(owned("gdal"));
    assert(parts_view(parts@) =~= gdal_directory());
    parts
}

/// The parts of the directory of the data that PROJ needs.
pub fn proj_parts() -> (parts: Vec<String>)
    ensures
        parts_view(parts@) == proj_directory(),
{
    let mut parts: Vec<String> = Vec::new();
    parts.push(owned("share"));
    parts.push(owned("proj"));
    assert(parts_view(parts@) =~= proj_directory());
    parts
}

/// The variables that PDAL is started with: it is told of the data directories
/// that exist, and its own directory comes first in the search path.
pub open spec fn pdal_environment(
    bin_dir: Seq<char>,
    search_path: Seq<char>,
    gdal_exists: bool,
    proj_exists: bool,
) -> Seq<PdalVariableView> {
    let gdal = PdalVariableView {
        name: "GDAL_DATA"@,
        value: PdalValueView::Directory(gdal_directory()),
    };
    let proj = PdalVariableView {
        name: "PROJ_LIB"@,
        value: PdalValueView::Directory(proj_directory()),
    };
    let path = PdalVariableView {
        name: "PATH"@,
        value: PdalValueView::Text(bin_dir + ";"@ + search_path),
    };
    (if gdal_exists {
        seq![gdal]
    } else {
        Seq::empty()
    }) + (if proj_exists {
        seq![proj]
    } else {
        Seq::empty()
    }) + seq![path]
}

/// The variables to start PDAL with, where it stands in `bin_dir`, the search
/// path in force is `search_path`, and the two data directories exist or not.
pub fn pdal_variables(bin_dir: &str, search_path: &str, gdal_exists: bool, proj_exists: bool) -> (r:
    Vec<PdalVariable>)
    ensures
        pdal_view(r@) == pdal_environment(bin_dir@, search_path@, gdal_exists, proj_exists),
{
    let mut r: Vec<PdalVariable> = Vec::new();
    if gdal_exists {
        r.push(PdalVariable { name: owned("GDAL_DATA"), value: PdalValue::Directory(gdal_parts()) });
    }
    if proj_exists {
        r.push(PdalVariable { name: owned("PROJ_LIB"), value: PdalValue::Directory(proj_parts()) });
    }
    r.push(
        PdalVariable {
            name: owned("PATH"),
            value: PdalValue::Text(join3(bin_dir, ";", search_path)),
        },
    );
    assert(pdal_view(r@) =~= pdal_environment(bin_dir@, search_path@, gdal_exists, proj_exists));
    r
}

// ---------------------------------------------------------------------------
// Laws
// ---------------------------------------------------------------------------

/// PDAL is told of a data directory exactly when it exists, and always of a
/// search path; it is told of nothing else.
pub proof fn pdal_is_told_of_what_exists(
    bin_dir: Seq<char>,
    search_path: Seq<char>,
    gdal_exists: bool,
    proj_exists: bool,
    name: Seq<char>,
)
    ensures
        (exists|i: int|
            0 <= i < pdal_environment(bin_dir, search_path, gdal_exists, proj_exists).len() && (
            #[trigger] pdal_environment(bin_dir, search_path, gdal_exists, proj_exists)[i]).name
                == name) <==> ((gdal_exists && name == "GDAL_DATA"@) || (proj_exists && name
            == "PROJ_LIB"@) || name == "PATH"@),
{
    let all = pdal_environment(bin_dir, search_path, gdal_exists, proj_exists);
    if gdal_exists && name == "GDAL_DATA"@ {
        assert(all[0].name == name);
    }
    if proj_exists && name == "PROJ_LIB"@ {
        assert(all[if gdal_exists { 1 } else { 0int }].name == name);
    }
    if name == "PATH"@ {
        assert(all[all.len() - 1].name == name);
    }
}

/// What PDAL is told, in order: where the data of GDAL and of PROJ are, as far
/// as they exist, and last a search path that starts with its own directory and
/// goes on with the one in force.
pub proof fn what_pdal_is_told(
    bin_dir: Seq<char>,
    search_path: Seq<char>,
    gdal_exists: bool,
    proj_exists: bool,
)
    ensures
        ({
            let all = pdal_environment(bin_dir, search_path, gdal_exists, proj_exists);
            let g = if gdal_exists {
                1int
            } else {
                0
            };
            let p = if proj_exists {
                1int
            } else {
                0
            };
            &&& all.len() == g + p + 1
            &&& gdal_exists ==> all[0].name == "GDAL_DATA"@ && all[0].value
                == PdalValueView::Directory(seq!["share"@, "gdal"@])
            &&& proj_exists ==> all[g].name == "PROJ_LIB"@ && all[g].value
                == PdalValueView::Directory(seq!["share"@, "proj"@])
            &&& all.last().name == "PATH"@
            &&& all.last().value matches PdalValueView::Text(path) && path == bin_dir + seq![';']
                + search_path
        }),
{
    reveal_strlit(";");
    assert(";"@ =~= seq![';']);
}

/// Where the data of GDAL and of PROJ are looked for is where PDAL is told that
/// they are.
pub proof fn where_the_data_are()
    ensures
        gdal_directory() == seq!["share"@, "gdal"@],
        proj_directory() == seq!["share"@, "proj"@],
{
}

/// The directory of the tool comes first in its list of library directories,
/// and the list in force stays behind it, whole; an empty list leaves the
/// directory alone.
pub proof fn the_own_directory_comes_first(dir: Seq<char>, list: Seq<char>)
    ensures
        list.len() > 0 ==> in_front(dir, list) == dir + seq![':'] + list,
        list.len() == 0 ==> in_front(dir, list) == dir,
{
    reveal_strlit(":");
    assert(":"@ =~= seq![':']);
}

/// Which platforms list library directories, and where.
pub proof fn which_platforms_list_libraries(platform: Platform)
    ensures
        library_variable(platform) == match platform {
            Platform::Linux => Some("LD_LIBRARY_PATH"@),
            Platform::Macos => Some("DYLD_LIBRARY_PATH"@),
            _ => None,
        },
{
}

/// Variables show all that they hold, in order.
pub proof fn variables_are_shown_whole(
    variable: Variable,
    variables: Seq<PdalVariable>,
    i: int,
    parts: Seq<String>,
    j: int,
)
    requires
        0 <= i < variables.len(),
        0 <= j < parts.len(),
    ensures
        variable@.name == variable.name@,
        variable@.value == variable.value@,
        pdal_view(variables).len() == variables.len(),
        pdal_view(variables)[i].name == variables[i].name@,
        match variables[i].value {
            PdalValue::Text(text) => pdal_view(variables)[i].value == PdalValueView::Text(text@),
            PdalValue::Directory(p) => pdal_view(variables)[i].value
                == PdalValueView::Directory(parts_view(p@)),
        },
        parts_view(parts).len() == parts.len(),
        parts_view(parts)[j] == parts[j]@,
{
}

} // verus!
