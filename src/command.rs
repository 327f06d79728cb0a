//! The external build steps as data: the commands, their environments, and
//! the paths that the project's layout fixes.

use vstd::prelude::*;
use crate::text::views;

verus! {

/// The configuration of one run: the test project's root and the target
/// architecture, handed verbatim to the toolchain.
#[derive(Clone, Debug)]
pub struct CrossbuildOptions {
    pub tests_project_path: String,
    pub target_arch: String,
}

/// One environment variable set for an external step.
#[derive(Clone, Debug)]
pub struct EnvVar {
    pub key: String,
    pub value: String,
}

/// An external program to run, where, with which arguments and environment.
#[derive(Clone, Debug)]
pub struct ToolCommand {
    pub program: String,
    pub current_dir: String,
    pub args: Vec<String>,
    pub envs: Vec<EnvVar>,
}

/// The variables of an environment as pairs of key and value.
pub open spec fn env_view(envs: Seq<EnvVar>) -> Seq<(Seq<char>, Seq<char>)> {
    envs.map_values(|e: EnvVar| (e.key@, e.value@))
}

/// The words of `parts` with one space between each two.
pub open spec fn joined(parts: Seq<Seq<char>>) -> Seq<char>
    decreases parts.len(),
{
    if parts.len() == 0 {
        Seq::empty()
    } else if parts.len() == 1 {
        parts[0]
    } else {
        joined(parts.drop_last()) + " "@ + parts.last()
    }
}

/// Where the test sources lie.
pub open spec fn examples_dir_of(project: Seq<char>) -> Seq<char> {
    project + "/examples/"@
}

/// Where the toolchain leaves the compiled tests.
pub open spec fn library_dir_of(project: Seq<char>, arch: Seq<char>) -> Seq<char> {
    project + "/target/"@ + arch + "/debug/examples/"@
}

/// Where the native link recipe lies and runs.
pub open spec fn recipe_dir_of(project: Seq<char>) -> Seq<char> {
    project + "/gcc/"@
}

/// The file name of a test's compiled archive.
pub open spec fn archive_of(test: Seq<char>) -> Seq<char> {
    "lib"@ + test + ".a"@
}

/// Where the compiled archive of a test lies in the output directory `library`.
pub open spec fn archive_path_of(library: Seq<char>, test: Seq<char>) -> Seq<char> {
    library + "/"@ + archive_of(test)
}

/// The image that the link recipe makes for a test.
pub open spec fn image_path_of(project: Seq<char>, test: Seq<char>) -> Seq<char> {
    recipe_dir_of(project) + "build/stm32_"@ + test + ".elf"@
}

/// `cmd` cross-builds the example `test` with the driver `driver`.
pub open spec fn is_cross_build_command(
    cmd: ToolCommand,
    options: CrossbuildOptions,
    driver: Seq<char>,
    test: Seq<char>,
) -> bool {
    &&& cmd.program@ == driver
    &&& cmd.current_dir@ == options.tests_project_path@
    &&& views(cmd.args@) == seq![
        "build"@,
        "--example"@,
        test,
        "--verbose"@,
        "--target"@,
        options.target_arch@,
    ]
    &&& env_view(cmd.envs@) == seq![("CARGO_INCREMENTAL"@, "0"@)]
}

/// `cmd` links the compiled `test`, found in `library`, with extra objects
/// `objects`, into its image.
pub open spec fn is_link_command(
    cmd: ToolCommand,
    options: CrossbuildOptions,
    library: Seq<char>,
    objects: Seq<Seq<char>>,
    test: Seq<char>,
) -> bool {
    &&& cmd.program@ == "make"@
    &&& cmd.current_dir@ == recipe_dir_of(options.tests_project_path@)
    &&& cmd.args.len() == 0
    &&& env_view(cmd.envs@) == seq![
        ("TEST_NAME"@, test),
        ("TEST_LIBRARY_PATH"@, "-L "@ + library),
        ("TEST_LIBRARY_PRE"@, "-l:"@ + archive_of(test)),
        ("TEST_OBJECTS"@, joined(objects)),
        ("TEST_DEPS"@, joined(seq![library + "/"@ + archive_of(test)])),
        ("TEST_RENAMES"@, Seq::<char>::empty()),
    ]
}

/// The words of `parts` joined by single spaces.
pub fn join_spaces(parts: &Vec<String>) -> (r: String)
    ensures
        r@ == joined(views(parts@)),
{
    let mut r = String::new();
    let mut i: usize = 0;
    while i < parts.len()
        invariant
            i <= parts.len(),
            r@ == joined(views(parts@).take(i as int)),
        decreases parts.len() - i,
    {
        proof {
            assert(views(parts@).take(i + 1).drop_last() =~= views(parts@).take(i as int));
        }
        if i > 0 {
            r.append(" ");
        }
        r.append(parts[i].as_str());
        proof {
            if i == 0 {
                assert(r@ =~= joined(views(parts@).take(1)));
            }
        }
        i += 1;
    }
    proof {
        assert(views(parts@).take(i as int) =~= views(parts@));
    }
    r
}

fn env_var(key: &str, value: String) -> (r: EnvVar)
    ensures
        r.key@ == key@,
        r.value@ == value@,
{
    EnvVar { key: String::from_str(key), value }
}

/// The directory whose entries are searched for test sources.
pub fn examples_dir(options: &CrossbuildOptions) -> (r: String)
    ensures
        r@ == examples_dir_of(options.tests_project_path@),
{
    let mut r = options.tests_project_path.clone();
    r.append("/examples/");
    r
}

/// The directory in which the toolchain leaves the compiled tests.
pub fn library_dir(options: &CrossbuildOptions) -> (r: String)
    ensures
        r@ == library_dir_of(options.tests_project_path@, options.target_arch@),
{
    let mut r = options.tests_project_path.clone();
    r.append("/target/");
    r.append(options.target_arch.as_str());
    r.append("/debug/examples/");
    r
}

/// The directory of the native link recipe.
pub fn recipe_dir(options: &CrossbuildOptions) -> (r: String)
    ensures
        r@ == recipe_dir_of(options.tests_project_path@),
{
    let mut r = options.tests_project_path.clone();
    r.append("/gcc/");
    r
}

/// The path of the compiled archive of `test` in the output directory `library`.
pub fn archive_path(library: &str, test: &str) -> (r: String)
    ensures
        r@ == archive_path_of(library@, test@),
{
    let mut r = String::from_str(library);
    r.append("/lib");
    r.append(test);
    r.append(".a");
    proof {
        assert(r@ =~= archive_path_of(library@, test@)) by {
            reveal_strlit("/lib");
            reveal_strlit("/");
            reveal_strlit("lib");
        }
    }
    r
}

/// The path of the image that the link recipe makes for `test`.
pub fn image_path(options: &CrossbuildOptions, test: &str) -> (r: String)
    ensures
        r@ == image_path_of(options.tests_project_path@, test@),
{
    let mut r = recipe_dir(options);
    r.append("build/stm32_");
    r.append(test);
    r.append(".elf");
    r
}

/// The command that cross-builds the example `test` with the driver at `driver`.
pub fn cross_build_command(options: &CrossbuildOptions, driver: &str, test: &str) -> (r:
    ToolCommand)
    ensures
        is_cross_build_command(r, *options, driver@, test@),
{
    let mut args: Vec<String> = Vec::new();
    args.push(String::from_str("build"));
    args.push(String::from_str("--example"));
    args.push(String::from_str(test));
    args.push(String::from_str("--verbose"));
    args.push(String::from_str("--target"));
    args.push(options.target_arch.clone());
    let mut envs: Vec<EnvVar> = Vec::new();
    envs.push(env_var("CARGO_INCREMENTAL", String::from_str("0")));
    let r = ToolCommand {
        program: String::from_str(driver),
        current_dir: options.tests_project_path.clone(),
        args,
        envs,
    };
    proof {
        assert(views(r.args@) =~= seq![
            "build"@,
            "--example"@,
            test@,
            "--verbose"@,
            "--target"@,
            options.target_arch@,
        ]);
        assert(env_view(r.envs@) =~= seq![("CARGO_INCREMENTAL"@, "0"@)]);
    }
    r
}

/// The command that links the compiled `test`, found in `library`, with the
/// extra objects `objects`, into its image.
pub fn link_command(
    options: &CrossbuildOptions,
    library: &str,
    objects: &Vec<String>,
    test: &str,
) -> (r: ToolCommand)
    ensures
        is_link_command(r, *options, library@, views(objects@), test@),
{
    let mut archive = String::from_str("lib");
    archive.append(test);
    archive.append(".a");
    let mut search = String::from_str("-L ");
    search.append(library);
    let mut pre = String::from_str("-l:");
    pre.append(archive.as_str());
    let mut dep = String::from_str(library);
    dep.append("/");
    dep.append(archive.as_str());
    let mut deps: Vec<String> = Vec::new();
    deps.push(dep);
    let mut envs: Vec<EnvVar> = Vec::new();
    envs.push(env_var("TEST_NAME", String::from_str(test)));
    envs.push(env_var("TEST_LIBRARY_PATH", search));
    envs.push(env_var("TEST_LIBRARY_PRE", pre));
    envs.push(env_var("TEST_OBJECTS", join_spaces(objects)));
    envs.push(env_var("TEST_DEPS", join_spaces(&deps)));
    envs.push(env_var("TEST_RENAMES", String::new()));
    let r = ToolCommand {
        program: String::from_str("make"),
        current_dir: recipe_dir(options),
        args: Vec::new(),
        envs,
    };
    proof {
        assert(views(deps@) =~= seq![library@ + "/"@ + archive_of(test@)]);
        assert(env_view(r.envs@) =~= seq![
            ("TEST_NAME"@, test@),
            ("TEST_LIBRARY_PATH"@, "-L "@ + library@),
            ("TEST_LIBRARY_PRE"@, "-l:"@ + archive_of(test@)),
            ("TEST_OBJECTS"@, joined(views(objects@))),
            ("TEST_DEPS"@, joined(seq![library@ + "/"@ + archive_of(test@)])),
            ("TEST_RENAMES"@, Seq::<char>::empty()),
        ]);
    }
    r
}

} // verus!
