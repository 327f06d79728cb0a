use qemu_runner::{
    archive_path, cargo_candidates, contains, cross_build_command, discover_tests, ends_with,
    examples_dir, find_cargo_path, find_files, image_path, is_cargo, is_test_source_name,
    join_spaces, less_than, library_dir, link_command, recipe_dir, sort_names, starts_with,
    test_name_of, test_names, BuildError, BuildStage, CrossBuild, CrossBuildAction,
    CrossBuildEvent, CrossBuildPhase, CrossbuildOptions, CrossbuiltTests, Link, LinkAction,
    LinkEvent, LinkPhase, LocateStep, Stm32Test, ToolCommand,
};

fn strings(v: &[&str]) -> Vec<String> {
    v.iter().map(|s| s.to_string()).collect()
}

fn options() -> CrossbuildOptions {
    CrossbuildOptions {
        tests_project_path: "/proj".to_string(),
        target_arch: "thumbv7m-none-eabi".to_string(),
    }
}

fn manifest(tests: &[&str]) -> CrossbuiltTests {
    CrossbuiltTests {
        object_paths: vec![],
        tests: strings(tests),
        library_path: "/proj/target/thumbv7m-none-eabi/debug/examples".to_string(),
    }
}

fn env_pairs(cmd: &ToolCommand) -> Vec<(String, String)> {
    cmd.envs.iter().map(|e| (e.key.clone(), e.value.clone())).collect()
}

fn pairs(v: &[(&str, &str)]) -> Vec<(String, String)> {
    v.iter().map(|(k, x)| (k.to_string(), x.to_string())).collect()
}

/// Runs the link stage with every link succeeding and each image resolving
/// under `/real`.
fn link_all(tests: &[&str]) -> Vec<Stm32Test> {
    let mut link = Link::new(options(), manifest(tests));
    let mut event = LinkEvent::Start;
    loop {
        match link.step(event) {
            LinkAction::RunLink(_) => event = LinkEvent::LinkExited(true),
            LinkAction::ResolveImage(p) => {
                event = LinkEvent::ImageResolved(Some(format!("/real{}", p)))
            }
            LinkAction::Finish(out) => return out.binaries,
            LinkAction::Abort(e) => panic!("unexpected abort: {:?}", e),
        }
    }
}

#[test]
fn text_primitives() {
    assert!(starts_with("test_blink.rs", "test_"));
    assert!(!starts_with("tes", "test_"));
    assert!(starts_with("abc", ""));
    assert!(ends_with("test_blink.rs", ".rs"));
    assert!(!ends_with("test_blink.rsx", ".rs"));
    assert!(contains("cargo 1.75.0", "cargo"));
    assert!(contains("xx cargo", "cargo"));
    assert!(!contains("carg", "cargo"));
    assert!(contains("", ""));
}

#[test]
fn test_source_names() {
    assert!(is_test_source_name("test_blink.rs"));
    assert!(is_test_source_name("test_.rs"));
    assert!(!is_test_source_name("test.rs"));
    assert!(!is_test_source_name("Test_blink.rs"));
    assert!(!is_test_source_name("test_blink.rs.bak"));
    assert!(!is_test_source_name("main.rs"));
    assert_eq!(test_name_of("test_blink.rs"), "test_blink");
    assert_eq!(test_name_of("test_a.rs.rs"), "test_a.rs");
    assert_eq!(test_name_of("notes"), "notes");
}

#[test]
fn discovery_counts_only_matching_files() {
    let entries = strings(&[
        "main.rs",
        "test_blink.rs",
        "README.md",
        "test_notes.txt",
        "helper_test.rs",
        "test_uart.rs",
    ]);
    let files = find_files("/proj/examples", &entries);
    assert_eq!(files.len(), 2);
    assert_eq!(files[0].name, "test_blink.rs");
    assert_eq!(files[0].absolute_path, "/proj/examples/test_blink.rs");
    assert_eq!(files[1].name, "test_uart.rs");
    assert_eq!(files[1].absolute_path, "/proj/examples/test_uart.rs");
    assert_eq!(test_names(&files), strings(&["test_blink", "test_uart"]));
    assert_eq!(discover_tests("/proj/examples", &entries), strings(&["test_blink", "test_uart"]));
    let matching_only = strings(&["test_blink.rs", "test_uart.rs"]);
    assert_eq!(
        discover_tests("/proj/examples", &matching_only),
        discover_tests("/proj/examples", &entries)
    );
}

#[test]
fn discovery_of_empty_listing() {
    assert!(discover_tests("/proj/examples", &vec![]).is_empty());
    assert!(discover_tests("/proj/examples", &strings(&["lib.rs", "build.rs"])).is_empty());
}

#[test]
fn discovery_name_set_ignores_listing_order() {
    let a = discover_tests("/d", &strings(&["test_b.rs", "x.rs", "test_a.rs"]));
    let b = discover_tests("/d", &strings(&["test_a.rs", "test_b.rs", "x.rs"]));
    let mut a_sorted = a.clone();
    a_sorted.sort();
    let mut b_sorted = b.clone();
    b_sorted.sort();
    assert_eq!(a_sorted, b_sorted);
}

#[test]
fn candidates_for_driver() {
    assert_eq!(
        cargo_candidates(Some("/home/dev".to_string())),
        strings(&["cargo", "/home/dev/.cargo/bin/cargo"])
    );
    assert_eq!(cargo_candidates(None), strings(&["cargo"]));
    assert!(is_cargo("cargo 1.75.0 (1d8b05cdd 2023-11-20)\n"));
    assert!(!is_cargo("rustc 1.75.0"));
    assert!(!is_cargo(""));
}

#[test]
fn driver_search_probes_in_order() {
    let cands = strings(&["cargo", "/home/dev/.cargo/bin/cargo"]);
    assert!(matches!(find_cargo_path(&cands, &vec![]), Ok(LocateStep::Probe(c)) if c == "cargo"));
    assert!(matches!(
        find_cargo_path(&cands, &vec![None]),
        Ok(LocateStep::Probe(c)) if c == "/home/dev/.cargo/bin/cargo"
    ));
    assert!(matches!(
        find_cargo_path(&cands, &vec![Some("cargo 1.75.0".to_string())]),
        Ok(LocateStep::Found(c)) if c == "cargo"
    ));
    assert!(matches!(
        find_cargo_path(&cands, &vec![Some("bash".to_string()), Some("cargo 1.70".to_string())]),
        Ok(LocateStep::Found(c)) if c == "/home/dev/.cargo/bin/cargo"
    ));
}

#[test]
fn driver_absent_everywhere() {
    let cands = strings(&["cargo", "/home/dev/.cargo/bin/cargo"]);
    let r = find_cargo_path(&cands, &vec![None, Some("command not found".to_string())]);
    assert!(matches!(r, Err(BuildError::ToolchainNotFound)));
    assert!(matches!(find_cargo_path(&vec![], &vec![]), Err(BuildError::ToolchainNotFound)));
}

#[test]
fn layout_paths() {
    let o = options();
    assert_eq!(examples_dir(&o), "/proj/examples/");
    assert_eq!(library_dir(&o), "/proj/target/thumbv7m-none-eabi/debug/examples/");
    assert_eq!(recipe_dir(&o), "/proj/gcc/");
    assert_eq!(image_path(&o, "test_blink"), "/proj/gcc/build/stm32_test_blink.elf");
}

#[test]
fn joining_words() {
    assert_eq!(join_spaces(&vec![]), "");
    assert_eq!(join_spaces(&strings(&["a.o"])), "a.o");
    assert_eq!(join_spaces(&strings(&["a.o", "b.o", "c.o"])), "a.o b.o c.o");
}

#[test]
fn cross_build_command_template() {
    let cmd = cross_build_command(&options(), "/home/dev/.cargo/bin/cargo", "test_blink");
    assert_eq!(cmd.program, "/home/dev/.cargo/bin/cargo");
    assert_eq!(cmd.current_dir, "/proj");
    assert_eq!(
        cmd.args,
        strings(&["build", "--example", "test_blink", "--verbose", "--target", "thumbv7m-none-eabi"])
    );
    assert_eq!(env_pairs(&cmd), pairs(&[("CARGO_INCREMENTAL", "0")]));
}

#[test]
fn link_command_environment() {
    let objects = strings(&["/o/a.o", "/o/b.o"]);
    let cmd = link_command(&options(), "/lib/dir", &objects, "test_blink");
    assert_eq!(cmd.program, "make");
    assert_eq!(cmd.current_dir, "/proj/gcc/");
    assert!(cmd.args.is_empty());
    assert_eq!(
        env_pairs(&cmd),
        pairs(&[
            ("TEST_NAME", "test_blink"),
            ("TEST_LIBRARY_PATH", "-L /lib/dir"),
            ("TEST_LIBRARY_PRE", "-l:libtest_blink.a"),
            ("TEST_OBJECTS", "/o/a.o /o/b.o"),
            ("TEST_DEPS", "/lib/dir/libtest_blink.a"),
            ("TEST_RENAMES", ""),
        ])
    );
}

#[test]
fn cross_build_all_succeed() {
    let tests = strings(&["test_blink", "test_uart"]);
    let mut run = CrossBuild::new(options(), "cargo".to_string(), tests.clone());
    assert_eq!(run.phase, CrossBuildPhase::Idle);
    let mut built = vec![];
    let mut checked = vec![];
    let mut event = CrossBuildEvent::Start;
    let manifest = loop {
        match run.step(event) {
            CrossBuildAction::RunBuild(cmd) => {
                built.push(cmd.args[2].clone());
                event = CrossBuildEvent::BuildExited(true);
            }
            CrossBuildAction::ResolveLibrary(dir) => {
                assert_eq!(dir, "/proj/target/thumbv7m-none-eabi/debug/examples/");
                event = CrossBuildEvent::LibraryResolved(Some("/real/examples".to_string()));
            }
            CrossBuildAction::CheckArchive(path) => {
                checked.push(path);
                event = CrossBuildEvent::ArchiveChecked(true);
            }
            CrossBuildAction::Finish(m) => break m,
            CrossBuildAction::Abort(e) => panic!("unexpected abort: {:?}", e),
        }
    };
    assert_eq!(built, tests);
    assert_eq!(
        checked,
        strings(&["/real/examples/libtest_blink.a", "/real/examples/libtest_uart.a"])
    );
    assert_eq!(manifest.tests, tests);
    assert!(manifest.object_paths.is_empty());
    assert_eq!(manifest.library_path, "/real/examples");
    assert_eq!(run.phase, CrossBuildPhase::Done);
}

#[test]
fn cross_build_stops_at_first_failure() {
    let tests = strings(&["test_a", "test_b", "test_c"]);
    let mut run = CrossBuild::new(options(), "cargo".to_string(), tests);
    assert!(matches!(run.step(CrossBuildEvent::Start), CrossBuildAction::RunBuild(_)));
    let next = run.step(CrossBuildEvent::BuildExited(true));
    assert!(matches!(&next, CrossBuildAction::RunBuild(c) if c.args[2] == "test_b"));
    let r = run.step(CrossBuildEvent::BuildExited(false));
    assert!(matches!(
        r,
        CrossBuildAction::Abort(BuildError::SubprocessFailure { stage: BuildStage::CrossBuild, test })
            if test == "test_b"
    ));
    assert_eq!(run.phase, CrossBuildPhase::Done);
}

#[test]
fn cross_build_missing_output_directory() {
    let mut run = CrossBuild::new(options(), "cargo".to_string(), strings(&["test_a"]));
    run.step(CrossBuildEvent::Start);
    assert!(matches!(
        run.step(CrossBuildEvent::BuildExited(true)),
        CrossBuildAction::ResolveLibrary(_)
    ));
    let r = run.step(CrossBuildEvent::LibraryResolved(None));
    assert!(matches!(
        r,
        CrossBuildAction::Abort(BuildError::PathResolutionFailure { path })
            if path == "/proj/target/thumbv7m-none-eabi/debug/examples/"
    ));
}

#[test]
fn zero_tests_build_and_link_nothing() {
    let mut run = CrossBuild::new(options(), "cargo".to_string(), vec![]);
    let first = run.step(CrossBuildEvent::Start);
    assert!(matches!(first, CrossBuildAction::ResolveLibrary(_)));
    let done = run.step(CrossBuildEvent::LibraryResolved(Some("/real/examples".to_string())));
    let m = match done {
        CrossBuildAction::Finish(m) => m,
        other => panic!("expected a manifest, got {:?}", other),
    };
    assert!(m.tests.is_empty());
    assert_eq!(m.library_path, "/real/examples");
    let mut link = Link::new(options(), m);
    match link.step(LinkEvent::Start) {
        LinkAction::Finish(out) => assert!(out.binaries.is_empty()),
        other => panic!("expected no link run, got {:?}", other),
    }
    assert_eq!(link.phase, LinkPhase::Done);
}

#[test]
fn single_blink_test_links_one_image() {
    let mut link = Link::new(options(), manifest(&["test_blink"]));
    match link.step(LinkEvent::Start) {
        LinkAction::RunLink(cmd) => {
            assert_eq!(cmd.program, "make");
            assert_eq!(env_pairs(&cmd)[0], ("TEST_NAME".to_string(), "test_blink".to_string()));
        }
        other => panic!("expected a link run, got {:?}", other),
    }
    match link.step(LinkEvent::LinkExited(true)) {
        LinkAction::ResolveImage(p) => assert_eq!(p, "/proj/gcc/build/stm32_test_blink.elf"),
        other => panic!("expected an image check, got {:?}", other),
    }
    let out = match link.step(LinkEvent::ImageResolved(Some(
        "/real/proj/gcc/build/stm32_test_blink.elf".to_string(),
    ))) {
        LinkAction::Finish(out) => out,
        other => panic!("expected the images, got {:?}", other),
    };
    assert_eq!(out.binaries.len(), 1);
    assert_eq!(out.binaries[0].name, "test_blink");
    assert_eq!(out.binaries[0].absolute_elf_path, "/real/proj/gcc/build/stm32_test_blink.elf");
}

#[test]
fn link_images_follow_manifest_and_naming() {
    let images = link_all(&["test_a", "test_b"]);
    assert_eq!(images.len(), 2);
    assert_eq!(images[0].name, "test_a");
    assert_eq!(images[0].absolute_elf_path, "/real/proj/gcc/build/stm32_test_a.elf");
    assert_eq!(images[1].name, "test_b");
    assert_eq!(images[1].absolute_elf_path, "/real/proj/gcc/build/stm32_test_b.elf");
}

#[test]
fn link_runs_repeat_identically() {
    let first = link_all(&["test_a", "test_b"]);
    let second = link_all(&["test_a", "test_b"]);
    assert_eq!(first.len(), second.len());
    for (x, y) in first.iter().zip(second.iter()) {
        assert_eq!(x.name, y.name);
        assert_eq!(x.absolute_elf_path, y.absolute_elf_path);
    }
}

#[test]
fn link_failure_aborts() {
    let mut link = Link::new(options(), manifest(&["test_a", "test_b"]));
    link.step(LinkEvent::Start);
    let r = link.step(LinkEvent::LinkExited(false));
    assert!(matches!(
        r,
        LinkAction::Abort(BuildError::SubprocessFailure { stage: BuildStage::Link, test })
            if test == "test_a"
    ));
    assert_eq!(link.phase, LinkPhase::Done);
}

#[test]
fn missing_image_aborts() {
    let mut link = Link::new(options(), manifest(&["test_a"]));
    link.step(LinkEvent::Start);
    link.step(LinkEvent::LinkExited(true));
    let r = link.step(LinkEvent::ImageResolved(None));
    assert!(matches!(
        r,
        LinkAction::Abort(BuildError::MissingExpectedArtifact { path })
            if path == "/proj/gcc/build/stm32_test_a.elf"
    ));
}

#[test]
fn cross_build_missing_archive_aborts() {
    let mut run = CrossBuild::new(options(), "cargo".to_string(), strings(&["test_a", "test_b"]));
    run.step(CrossBuildEvent::Start);
    run.step(CrossBuildEvent::BuildExited(true));
    run.step(CrossBuildEvent::BuildExited(true));
    let first = run.step(CrossBuildEvent::LibraryResolved(Some("/lib".to_string())));
    assert!(matches!(&first, CrossBuildAction::CheckArchive(p) if p == "/lib/libtest_a.a"));
    let second = run.step(CrossBuildEvent::ArchiveChecked(true));
    assert!(matches!(&second, CrossBuildAction::CheckArchive(p) if p == "/lib/libtest_b.a"));
    let r = run.step(CrossBuildEvent::ArchiveChecked(false));
    assert!(matches!(
        r,
        CrossBuildAction::Abort(BuildError::MissingExpectedArtifact { path })
            if path == "/lib/libtest_b.a"
    ));
    assert_eq!(run.phase, CrossBuildPhase::Done);
}

#[test]
fn archive_paths() {
    assert_eq!(archive_path("/lib/dir", "test_blink"), "/lib/dir/libtest_blink.a");
}

#[test]
fn lexicographic_order() {
    assert!(less_than("test_a", "test_b"));
    assert!(!less_than("test_b", "test_a"));
    assert!(less_than("test", "test_a"));
    assert!(!less_than("test_a", "test"));
    assert!(!less_than("same", "same"));
    assert!(less_than("", "a"));
    assert!(!less_than("", ""));
    assert!(less_than("Z", "a"));
}

#[test]
fn sorting_names() {
    assert_eq!(
        sort_names(strings(&["test_c", "test_a", "test_b", "test_a"])),
        strings(&["test_a", "test_b", "test_c"])
    );
    assert!(sort_names(vec![]).is_empty());
    assert_eq!(sort_names(strings(&["only"])), strings(&["only"]));
}

#[test]
fn discovery_is_sorted_whatever_the_listing_order() {
    let listed = strings(&["test_uart.rs", "main.rs", "test_blink.rs", "test_adc.rs"]);
    let expected = strings(&["test_adc", "test_blink", "test_uart"]);
    assert_eq!(discover_tests("/d", &listed), expected);
    let reordered = strings(&["test_blink.rs", "test_adc.rs", "notes.txt", "test_uart.rs", "x.rs"]);
    assert_eq!(discover_tests("/d", &reordered), expected);
}
