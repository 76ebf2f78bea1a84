use scan2bim_converter::disk::{disk_check, judge_disks, DiskCheck, DiskInfo};
use scan2bim_converter::environment::{
    gdal_parts, library_variable_name, pdal_variables, potree_variable, proj_parts, PdalValue,
    PdalVariable, Platform, Variable,
};
use scan2bim_converter::files::{
    describe_file, dir_size, estimate_points, inspect_file, DirEntry, FileInfo,
};
use scan2bim_converter::locate::{
    executable_name, search_places, search_step, Candidate, Root, SearchAction,
};
use scan2bim_converter::paths::stem_of;

#[test]
fn files_are_described() {
    let info = |path: &str, name: &str, size: u64| {
        Some(FileInfo { path: path.to_string(), name: name.to_string(), size })
    };
    assert_eq!(inspect_file("/data/scan.e57".to_string(), true, 7), info("/data/scan.e57", "scan.e57", 7));
    assert_eq!(inspect_file("scan.e57".to_string(), true, 0), info("scan.e57", "scan.e57", 0));
    assert_eq!(
        inspect_file("/scans/12:30.e57".to_string(), true, 1),
        info("/scans/12:30.e57", "12:30.e57", 1)
    );
    assert_eq!(inspect_file("/data/scan/".to_string(), true, 7), info("/data/scan/", "scan", 7));
    assert_eq!(
        inspect_file("//host/share/scan.e57".to_string(), true, 7),
        info("//host/share/scan.e57", "scan.e57", 7)
    );
    assert_eq!(inspect_file("//a//b/c".to_string(), true, 7), info("//a//b/c", "c", 7));
    assert_eq!(inspect_file("/data".to_string(), false, 7), None);
    assert_eq!(inspect_file("/data/..".to_string(), true, 7), None);
    assert_eq!(describe_file("p".to_string(), Some("n".to_string()), true, 1), info("p", "n", 1));
    assert_eq!(describe_file("p".to_string(), None, true, 1), None);
    assert_eq!(describe_file("p".to_string(), Some("n".to_string()), false, 1), None);
}

#[test]
fn points_are_estimated() {
    assert_eq!(estimate_points(None), 0);
    assert_eq!(estimate_points(Some(10)), 0);
    assert_eq!(estimate_points(Some(11)), 1);
    assert_eq!(estimate_points(Some(271_000_000)), 24_636_363);
}

#[test]
fn directories_are_added_up() {
    assert_eq!(dir_size(&vec![]), Some(0));
    let tree = vec![
        DirEntry::File(Some(5)),
        DirEntry::Directory(vec![
            DirEntry::File(None),
            DirEntry::File(Some(7)),
            DirEntry::Directory(vec![DirEntry::File(Some(100))]),
        ]),
        DirEntry::Directory(vec![]),
    ];
    assert_eq!(dir_size(&tree), Some(112));
    let full = vec![DirEntry::File(Some(u64::MAX)), DirEntry::File(Some(0))];
    assert_eq!(dir_size(&full), Some(u64::MAX));
    let over = vec![
        DirEntry::Directory(vec![DirEntry::File(Some(u64::MAX))]),
        DirEntry::File(Some(1)),
    ];
    assert_eq!(dir_size(&over), None);
    assert_eq!(dir_size(&vec![DirEntry::Directory(over)]), None);
}

#[test]
fn stems() {
    for name in ["a.b", "a", ".a", ".a.b", "a.", "a.b.c", "..a"] {
        let expected = std::path::Path::new(name).file_stem().unwrap().to_string_lossy();
        assert_eq!(stem_of(name), expected, "{:?}", name);
    }
}

fn disk(mount_point: &str, available: u64) -> DiskInfo {
    DiskInfo { mount_point: mount_point.to_string(), available }
}

#[test]
fn the_deepest_disk_counts() {
    let disks = vec![disk("/", 10), disk("/data", 20), disk("/data/big", 30), disk("/da", 40)];
    let answer = |ok: bool, free_bytes: Option<u64>, required_bytes: u64| DiskCheck {
        ok,
        free_bytes,
        required_bytes,
    };
    assert_eq!(disk_check("/data/big/x", &disks, 30), answer(true, Some(30), 30));
    assert_eq!(disk_check("/data/bigger", &disks, 21), answer(false, Some(20), 21));
    assert_eq!(disk_check("/data", &disks, 20), answer(true, Some(20), 20));
    assert_eq!(disk_check("/home", &disks, 11), answer(false, Some(10), 11));
    assert_eq!(disk_check("relative", &disks, 11), answer(true, None, 11));
    assert_eq!(disk_check("/data", &vec![], 11), answer(true, None, 11));
}

#[test]
fn mount_points_are_compared_part_by_part() {
    let free = |path: &str, mount: &str| disk_check(path, &vec![disk(mount, 1)], 0).free_bytes;
    assert_eq!(free("/data/out/", "/data"), Some(1));
    assert_eq!(free("/data//out", "/data/"), Some(1));
    assert_eq!(free("//data/./out", "/data"), Some(1));
    assert_eq!(free("/database", "/data"), None);
    assert_eq!(free("data/out", "/data"), None);
    assert_eq!(free("data/out", "data"), Some(1));
    assert_eq!(free("/data", "/data/out"), None);
    assert_eq!(free("/data/../out", "/data"), Some(1));
    assert_eq!(free("anything", ""), Some(1));
    assert_eq!(free("//host/share/out", "//host/share"), Some(1));
    assert_eq!(free("//host/share/out/", "//host/share//"), Some(1));
    assert_eq!(free("//host/share2/out", "//host/share"), None);
}

/// All texts of at most this length over a slash, a dot and a letter.
fn small_paths(length: usize) -> Vec<String> {
    let mut all = vec![String::new()];
    let mut last = all.clone();
    for _ in 0..length {
        last = last.iter().flat_map(|p| ["/", ".", "a"].map(|c| format!("{}{}", p, c))).collect();
        all.extend(last.clone());
    }
    all
}

fn named_parts(path: &str) -> Vec<&str> {
    path.split('/').filter(|p| !p.is_empty() && *p != ".").collect()
}

#[test]
fn names_and_prefixes_follow_the_slashes() {
    if std::path::MAIN_SEPARATOR != '/' {
        return;
    }
    let paths = small_paths(5);
    for path in &paths {
        let name = named_parts(path).last().filter(|p| **p != "..").map(|p| p.to_string());
        let found = inspect_file(path.clone(), true, 0).map(|info| info.name);
        assert_eq!(found, name, "{:?}", path);
    }
    let steps = |path: &str| {
        let mut steps: Vec<String> = Vec::new();
        if path.starts_with('/') {
            steps.push("/".to_string());
        } else if path == "." || path.starts_with("./") {
            steps.push(".".to_string());
        }
        steps.extend(named_parts(path).iter().map(|p| p.to_string()));
        steps
    };
    let bases = small_paths(3);
    for path in &paths {
        for base in &bases {
            let under = steps(path).starts_with(&steps(base));
            let found = disk_check(path, &vec![disk(base, 1)], 0).free_bytes.is_some();
            assert_eq!(found, under, "{:?} under {:?}", path, base);
        }
    }
}

#[test]
fn of_equally_deep_disks_the_last_counts() {
    let disks = vec![disk("/a", 1), disk("/b", 2), disk("/", 3)];
    let free = |holds: Vec<bool>| judge_disks(&disks, &holds, 0).free_bytes;
    assert_eq!(free(vec![true, true, true]), Some(2));
    assert_eq!(free(vec![true, false, true]), Some(1));
    assert_eq!(free(vec![false, false, true]), Some(3));
    assert_eq!(free(vec![false, false, false]), None);
    assert!(judge_disks(&disks, &vec![true, false, false], 1).ok);
    assert!(!judge_disks(&disks, &vec![true, false, false], 2).ok);
}

#[test]
fn mount_points_are_compared_by_bytes() {
    let disks = vec![disk("/\u{20ac}", 1), disk("/abc", 2), disk("/ab", 3)];
    assert_eq!(judge_disks(&disks, &vec![true, true, true], 0).free_bytes, Some(2));
    assert_eq!(judge_disks(&disks, &vec![true, false, true], 0).free_bytes, Some(1));
}

#[test]
fn library_directories_come_first() {
    let variable = |name: &str, value: &str| {
        Some(Variable { name: name.to_string(), value: value.to_string() })
    };
    assert_eq!(potree_variable(Platform::Linux, "/opt", ""), variable("LD_LIBRARY_PATH", "/opt"));
    assert_eq!(
        potree_variable(Platform::Linux, "/opt", "/lib:/usr/lib"),
        variable("LD_LIBRARY_PATH", "/opt:/lib:/usr/lib")
    );
    assert_eq!(
        potree_variable(Platform::Macos, "/opt", "/lib"),
        variable("DYLD_LIBRARY_PATH", "/opt:/lib")
    );
    assert_eq!(potree_variable(Platform::Windows, "/opt", "/lib"), None);
    assert_eq!(potree_variable(Platform::Other, "/opt", ""), None);
    assert_eq!(library_variable_name(Platform::Macos), Some("DYLD_LIBRARY_PATH"));
}

fn directory(name: &str, parts: &[&str]) -> PdalVariable {
    PdalVariable {
        name: name.to_string(),
        value: PdalValue::Directory(parts.iter().map(|p| p.to_string()).collect()),
    }
}

fn search_path(value: &str) -> PdalVariable {
    PdalVariable { name: "PATH".to_string(), value: PdalValue::Text(value.to_string()) }
}

#[test]
fn pdal_is_told_of_what_exists() {
    let gdal = || directory("GDAL_DATA", &["share", "gdal"]);
    let proj = || directory("PROJ_LIB", &["share", "proj"]);
    let path = || search_path("/pdal/bin;/usr/bin");
    let variables = |gdal: bool, proj: bool| pdal_variables("/pdal/bin", "/usr/bin", gdal, proj);
    assert_eq!(variables(true, false), vec![gdal(), path()]);
    assert_eq!(variables(false, true), vec![proj(), path()]);
    assert_eq!(variables(true, true), vec![gdal(), proj(), path()]);
    assert_eq!(variables(false, false), vec![path()]);
    assert_eq!(pdal_variables("b", "", false, false), vec![search_path("b;")]);
    assert_eq!(gdal_parts(), vec!["share", "gdal"]);
    assert_eq!(proj_parts(), vec!["share", "proj"]);
}

fn place(root: Root, parts: &[&str]) -> Candidate {
    Candidate { root, parts: parts.iter().map(|p| p.to_string()).collect() }
}

#[test]
fn tools_are_looked_for_in_order() {
    assert_eq!(executable_name("pdal", true), "pdal.exe");
    assert_eq!(executable_name("pdal", false), "pdal");
    assert_eq!(
        search_places("pdal", true, true, true),
        vec![
            place(Root::Development, &["binaries", "pdal", "bin", "pdal.exe"]),
            place(Root::Installation, &["binaries", "pdal", "bin", "pdal.exe"]),
            place(Root::Installation, &["resources", "binaries", "pdal", "bin", "pdal.exe"]),
            place(Root::Installation, &["pdal.exe"]),
        ]
    );
    assert_eq!(
        search_places("PotreeConverter", false, true, true),
        vec![
            place(Root::Development, &["binaries", "PotreeConverter"]),
            place(Root::Installation, &["PotreeConverter"]),
            place(Root::Installation, &["binaries", "PotreeConverter"]),
            place(Root::Installation, &["resources", "binaries", "PotreeConverter"]),
        ]
    );
    assert_eq!(
        search_places("PDAL", false, true, false),
        vec![place(Root::Development, &["binaries", "pdal", "bin", "PDAL"])]
    );
    assert_eq!(search_places("x", false, false, true).len(), 3);
    assert!(search_places("x", false, false, false).is_empty());
}

fn search(exists: &[bool]) -> Option<usize> {
    let mut probed = 0;
    let mut last = false;
    loop {
        match search_step(exists.len(), probed, last) {
            SearchAction::Probe(i) => {
                last = exists[i];
                probed = i + 1;
            }
            SearchAction::Found(i) => return Some(i),
            SearchAction::NotFound => return None,
        }
    }
}

#[test]
fn a_search_stops_at_the_first_place_that_exists() {
    assert_eq!(search(&[false, true, true]), Some(1));
    assert_eq!(search(&[true]), Some(0));
    assert_eq!(search(&[false, false, false, true]), Some(3));
    assert_eq!(search(&[false, false]), None);
    assert_eq!(search(&[]), None);
    assert_eq!(search_step(3, 1, true), SearchAction::Found(0));
}
