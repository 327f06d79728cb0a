//! Cross-compiles the example test programs of an embedded project and links
//! each one into a loadable image.

pub mod command;
pub mod crossbuild;
pub mod discovery;
pub mod error;
pub mod link;
pub mod naming;
pub mod order;
pub mod pipeline;
pub mod text;
pub mod toolchain;

pub use text::{contains, ends_with, starts_with};
pub use naming::{is_test_source_name, test_name_of};
pub use discovery::{discover_tests, find_files, test_names, FoundFile};
pub use error::{BuildError, BuildStage};
pub use toolchain::{cargo_candidates, find_cargo_path, is_cargo, LocateStep};
pub use command::{
    archive_path, cross_build_command, examples_dir, image_path, join_spaces, library_dir,
    link_command, recipe_dir, CrossbuildOptions, EnvVar, ToolCommand,
};
pub use crossbuild::{
    CrossBuild, CrossBuildAction, CrossBuildEvent, CrossBuildPhase, CrossbuiltTests,
};
pub use link::{Link, LinkAction, LinkEvent, LinkPhase, Stm32Binaries, Stm32Test};
pub use order::{less_than, sort_names};
