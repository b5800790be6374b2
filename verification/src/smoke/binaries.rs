//! The build of the smoke test binaries, as a plan of commands.
//!
//! Paths are texts with `/` as separator. Creating directories, running
//! commands and reading files is left to the caller.

use crate::text;
use vstd::prelude::*;
use vstd::string::StringExecFns;

verus! {

/// A command with its arguments, and what its failure is reported as.
#[derive(Debug)]
pub struct BuildCommand {
    pub program: String,
    pub args: Vec<String>,
    pub failure: String,
}

/// One step of a build.
#[derive(Debug)]
pub enum BuildStep {
    /// Create a directory with its parents.
    CreateDir(String),
    /// Run a command.
    Run(BuildCommand),
}

/// The contents of a [`BuildStep`].
pub enum BuildStepView {
    CreateDir(Seq<char>),
    Run { program: Seq<char>, args: Seq<Seq<char>>, failure: Seq<char> },
}

/// The contents of a list of texts.
pub open spec fn texts(list: Seq<String>) -> Seq<Seq<char>> {
    Seq::new(list.len(), |i: int| list[i]@)
}

/// The contents of a list of string slices.
pub open spec fn slices(list: Seq<&str>) -> Seq<Seq<char>> {
    Seq::new(list.len(), |i: int| list[i]@)
}

impl View for BuildStep {
    type V = BuildStepView;

    open spec fn view(&self) -> BuildStepView {
        match *self {
            BuildStep::CreateDir(path) => BuildStepView::CreateDir(path@),
            BuildStep::Run(command) => BuildStepView::Run {
                program: command.program@,
                args: texts(command.args@),
                failure: command.failure@,
            },
        }
    }
}

/// The contents of a list of steps.
pub open spec fn step_views(steps: Seq<BuildStep>) -> Seq<BuildStepView> {
    Seq::new(steps.len(), |i: int| steps[i]@)
}

/// The guest programs to read after a build, and the steps that build them.
#[derive(Debug)]
pub struct SmokeBuild {
    pub steps: Vec<BuildStep>,
    pub legacy: String,
    pub suite: String,
}

/// The command that builds the ArceOS peer, its build configuration, and the
/// image that it has to produce.
#[derive(Debug)]
pub struct ArceosBuild {
    pub config: String,
    pub args: Vec<String>,
    pub image: String,
}

// ---------------------------------------------------------------------------
// Paths
// ---------------------------------------------------------------------------

/// A path below another: a separator goes between them unless one is there.
pub open spec fn joined(base: Seq<char>, rest: Seq<char>) -> Seq<char> {
    if base.len() == 0 || base.last() == '/' {
        base + rest
    } else {
        base + "/"@ + rest
    }
}

/// Whether the component that begins at `at` is the parent directory.
pub open spec fn parent_at(path: Seq<char>, at: int) -> bool {
    &&& at == 0 || path[at - 1] == '/'
    &&& at + 2 <= path.len()
    &&& path[at] == '.'
    &&& path[at + 1] == '.'
    &&& at + 2 == path.len() || path[at + 2] == '/'
}

/// Whether a path stays below the directory that it is relative to: it is not
/// absolute, and no component is the parent directory.
pub open spec fn stays_inside(path: Seq<char>) -> bool {
    &&& path.len() == 0 || path[0] != '/'
    &&& forall|at: int| 0 <= at < path.len() ==> !#[trigger] parent_at(path, at)
}

/// Appends a path to another.
pub fn join_path(base: &str, rest: &str) -> (path: String)
    ensures
        path@ == joined(base@, rest@),
{
    let length: usize = base.unicode_len();
    let mut path = text::text_of(base);
    if length > 0 && base.get_char(length - 1) != '/' {
        path.append("/");
    }
    path.append(rest);
    path
}

/// Resolves a configured path inside the workspace; `variable` names the
/// setting in the diagnostic.
pub fn workspace_relative_path(workspace_root: &str, configured: &str, variable: &str) -> (path:
    Result<String, String>)
    ensures
        match path {
            Ok(path) => stays_inside(configured@) && path@ == joined(workspace_root@, configured@),
            Err(message) => !stays_inside(configured@) && message@ == variable@
                + " must be a workspace-relative path without parent traversal"@,
        },
{
    let length: usize = configured.unicode_len();
    let mut inside = length == 0 || configured.get_char(0) != '/';
    let mut at: usize = 0;
    while at < length
        invariant
            length == configured@.len(),
            at <= length,
            inside == ((configured@.len() == 0 || configured@[0] != '/') && forall|i: int|
                0 <= i < at ==> !#[trigger] parent_at(configured@, i)),
        decreases length - at,
    {
        let starts = at == 0 || configured.get_char(at - 1) == '/';
        let parent = starts && length - at >= 2 && configured.get_char(at) == '.'
            && configured.get_char(at + 1) == '.' && (length - at == 2 || configured.get_char(at + 2)
            == '/');
        assert(parent == parent_at(configured@, at as int));
        if parent {
            inside = false;
        }
        at = at + 1;
    }
    if !inside {
        let mut message = text::text_of(variable);
        message.append(" must be a workspace-relative path without parent traversal");
        return Err(message);
    }
    Ok(join_path(workspace_root, configured))
}

/// **Law.** A path that leaves the workspace is refused, whatever comes before
/// or after the step to the parent directory.
pub proof fn law_parent_traversal_is_refused(before: Seq<char>, after: Seq<char>)
    requires
        before.len() == 0 || before.last() == '/',
        after.len() == 0 || after[0] == '/',
    ensures
        !stays_inside(before + seq!['.', '.'] + after),
{
    let path = before + seq!['.', '.'] + after;
    assert(parent_at(path, before.len() as int));
}

/// A text with every `/` replaced by `_`.
pub open spec fn flattened(name: Seq<char>) -> Seq<char> {
    Seq::new(
        name.len(),
        |i: int|
            if name[i] == '/' {
                '_'
            } else {
                name[i]
            },
    )
}

fn flatten(name: &str) -> (flat: String)
    ensures
        flat@ == flattened(name@),
{
    let length: usize = name.unicode_len();
    let mut flat = String::new();
    let mut index: usize = 0;
    assert(flat@ =~= flattened(name@).take(0));
    while index < length
        invariant
            length == name@.len(),
            index <= length,
            flat@ == flattened(name@).take(index as int),
        decreases length - index,
    {
        let c = name.get_char(index);
        if c == '/' {
            flat.append("_");
            proof {
                reveal_strlit("_");
            }
        } else {
            flat.append(name.substring_char(index, index + 1));
        }
        index = index + 1;
        assert(flat@ =~= flattened(name@).take(index as int));
    }
    assert(flattened(name@).take(length as int) =~= flattened(name@));
    flat
}

// ---------------------------------------------------------------------------
// Commands
// ---------------------------------------------------------------------------

/// The compiler flags: C11, optimized for size, warnings fatal.
pub open spec fn compile_flags(lib_dir: Seq<char>) -> Seq<Seq<char>> {
    seq![
        "-std=c11"@,
        "-Os"@,
        "-g0"@,
        "-Wall"@,
        "-Wextra"@,
        "-Werror"@,
        "-ffunction-sections"@,
        "-fdata-sections"@,
        "-I"@ + lib_dir,
    ]
}

/// The command that compiles one source.
pub open spec fn compile_view(
    compiler: Seq<char>,
    lib_dir: Seq<char>,
    source: Seq<char>,
    object: Seq<char>,
) -> BuildStepView {
    BuildStepView::Run {
        program: compiler,
        args: compile_flags(lib_dir) + seq!["-c"@, "-o"@, object, source],
        failure: "failed to compile "@ + source,
    }
}

/// The archiver of a compiler: the one of the same toolchain, else the default
/// one of the architecture.
pub open spec fn archiver_of(arch: Seq<char>, compiler: Seq<char>) -> Seq<char> {
    let suffix = "-gcc"@;
    if suffix.len() <= compiler.len() && compiler.skip(compiler.len() - suffix.len()) == suffix {
        compiler.take(compiler.len() - suffix.len()) + "-ar"@
    } else {
        arch + "-linux-musl-ar"@
    }
}

/// The command that links one program.
pub open spec fn link_view(
    compiler: Seq<char>,
    binary: Seq<char>,
    object: Seq<char>,
    archive: Seq<char>,
    link_flags: Seq<Seq<char>>,
) -> BuildStepView {
    BuildStepView::Run {
        program: compiler,
        args: seq!["-o"@, binary, object, archive] + link_flags,
        failure: "failed to link "@ + binary,
    }
}

/// The directory of the adapter sources.
pub open spec fn adapter_dir(root: Seq<char>) -> Seq<char> {
    joined(root, "apps/linux/ivshmem"@)
}

/// The directory of the objects: one for each architecture and compiler.
pub open spec fn object_dir(root: Seq<char>, arch: Seq<char>, compiler: Seq<char>) -> Seq<char> {
    joined(joined(joined(root, "target/axbuild/ivshmem-smoke"@), arch), flattened(compiler))
}

/// The steps that build both guest programs: the adapter library, the two main
/// objects, the archive, and the two links.
pub open spec fn smoke_steps(
    root: Seq<char>,
    arch: Seq<char>,
    compiler: Seq<char>,
    link_flags: Seq<Seq<char>>,
) -> Seq<BuildStepView> {
    let sources = adapter_dir(root);
    let lib = joined(sources, "lib"@);
    let out = object_dir(root, arch, compiler);
    let suite_out = joined(out, "suite"@);
    let archive = joined(out, "libivshmem.a"@);
    let discovery = joined(out, "discovery.o"@);
    let polling = joined(out, "backend_polling.o"@);
    let errors = joined(out, "errors.o"@);
    let smoke_object = joined(out, "main.o"@);
    let suite_object = joined(suite_out, "main.o"@);
    seq![
        BuildStepView::CreateDir(out),
        compile_view(compiler, lib, joined(lib, "discovery.c"@), discovery),
        compile_view(compiler, lib, joined(lib, "backend_polling.c"@), polling),
        compile_view(compiler, lib, joined(lib, "errors.c"@), errors),
        compile_view(compiler, lib, joined(sources, "bar2_smoke/main.c"@), smoke_object),
        BuildStepView::CreateDir(suite_out),
        compile_view(compiler, lib, joined(sources, "suite/main.c"@), suite_object),
        BuildStepView::Run {
            program: archiver_of(arch, compiler),
            args: seq!["rcs"@, archive, discovery, polling, errors],
            failure: "failed to archive the ivshmem adapter library"@,
        },
        link_view(
            compiler,
            joined(out, "ivshmem-bar2-smoke"@),
            smoke_object,
            archive,
            link_flags,
        ),
        link_view(
            compiler,
            joined(out, "ivshmem-pci-suite"@),
            suite_object,
            archive,
            link_flags,
        ),
    ]
}

fn push_arg(args: &mut Vec<String>, arg: &str)
    ensures
        texts(final(args)@) == texts(old(args)@).push(arg@),
{
    args.push(text::text_of(arg));
    assert(texts(args@) =~= texts(old(args)@).push(arg@));
}

fn compile_c_source(compiler: &str, lib_dir: &str, source: &str, object: &str) -> (step: BuildStep)
    ensures
        step@ == compile_view(compiler@, lib_dir@, source@, object@),
{
    let mut args: Vec<String> = Vec::new();
    push_arg(&mut args, "-std=c11");
    push_arg(&mut args, "-Os");
    push_arg(&mut args, "-g0");
    push_arg(&mut args, "-Wall");
    push_arg(&mut args, "-Wextra");
    push_arg(&mut args, "-Werror");
    push_arg(&mut args, "-ffunction-sections");
    push_arg(&mut args, "-fdata-sections");
    let mut search = text::text_of("-I");
    search.append(lib_dir);
    push_arg(&mut args, search.as_str());
    push_arg(&mut args, "-c");
    push_arg(&mut args, "-o");
    push_arg(&mut args, object);
    push_arg(&mut args, source);
    assert(texts(args@) =~= compile_flags(lib_dir@) + seq!["-c"@, "-o"@, object@, source@]);
    let mut failure = text::text_of("failed to compile ");
    failure.append(source);
    BuildStep::Run(BuildCommand { program: text::text_of(compiler), args, failure })
}

fn archiver_name(arch: &str, compiler: &str) -> (archiver: String)
    ensures
        archiver@ == archiver_of(arch@, compiler@),
{
    let length: usize = compiler.unicode_len();
    proof {
        reveal_strlit("-gcc");
    }
    if length >= 4 && text::text_eq(compiler.substring_char(length - 4, length), "-gcc") {
        assert(compiler@.subrange(length - 4, length as int) =~= compiler@.skip(length - 4));
        assert(compiler@.subrange(0, length - 4) =~= compiler@.take(length - 4));
        let mut archiver = text::text_of(compiler.substring_char(0, length - 4));
        archiver.append("-ar");
        return archiver;
    }
    assert(length >= 4 ==> compiler@.subrange(length - 4, length as int) =~= compiler@.skip(
        length - 4,
    ));
    let mut archiver = text::text_of(arch);
    archiver.append("-linux-musl-ar");
    archiver
}

fn link_smoke_binary(
    compiler: &str,
    binary: &str,
    object: &str,
    archive: &str,
    link_flags: &Vec<&str>,
) -> (step: BuildStep)
    ensures
        step@ == link_view(compiler@, binary@, object@, archive@, slices(link_flags@)),
{
    let mut args: Vec<String> = Vec::new();
    push_arg(&mut args, "-o");
    push_arg(&mut args, binary);
    push_arg(&mut args, object);
    push_arg(&mut args, archive);
    let ghost fixed = texts(args@);
    assert(fixed =~= seq!["-o"@, binary@, object@, archive@]);
    let mut index: usize = 0;
    assert(fixed + slices(link_flags@).take(0) =~= fixed);
    while index < link_flags.len()
        invariant
            index <= link_flags.len(),
            texts(args@) == fixed + slices(link_flags@).take(index as int),
        decreases link_flags.len() - index,
    {
        push_arg(&mut args, link_flags[index]);
        index = index + 1;
        assert(texts(args@) =~= fixed + slices(link_flags@).take(index as int));
    }
    assert(slices(link_flags@).take(index as int) =~= slices(link_flags@));
    let mut failure = text::text_of("failed to link ");
    failure.append(binary);
    BuildStep::Run(BuildCommand { program: text::text_of(compiler), args, failure })
}

fn push_step(steps: &mut Vec<BuildStep>, step: BuildStep)
    ensures
        step_views(final(steps)@) == step_views(old(steps)@).push(step@),
{
    steps.push(step);
    assert(step_views(steps@) =~= step_views(old(steps)@).push(step@));
}

/// Plans the build of both guest programs with a given compiler.
pub fn build_smoke_binaries_with(
    workspace_root: &str,
    arch: &str,
    compiler: &str,
    link_flags: &Vec<&str>,
) -> (plan: Result<SmokeBuild, &'static str>)
    ensures
        match plan {
            Ok(plan) => {
                &&& arch@ == "aarch64"@
                &&& step_views(plan.steps@) == smoke_steps(
                    workspace_root@,
                    arch@,
                    compiler@,
                    slices(link_flags@),
                )
                &&& plan.legacy@ == joined(
                    object_dir(workspace_root@, arch@, compiler@),
                    "ivshmem-bar2-smoke"@,
                )
                &&& plan.suite@ == joined(
                    object_dir(workspace_root@, arch@, compiler@),
                    "ivshmem-pci-suite"@,
                )
            },
            Err(message) => arch@ != "aarch64"@ && message@
                == "the ivshmem smoke binary is currently built for aarch64 only"@,
        },
{
    if !text::text_eq(arch, "aarch64") {
        return Err("the ivshmem smoke binary is currently built for aarch64 only");
    }
    let sources = join_path(workspace_root, "apps/linux/ivshmem");
    let lib = join_path(sources.as_str(), "lib");
    let target = join_path(workspace_root, "target/axbuild/ivshmem-smoke");
    let target_arch = join_path(target.as_str(), arch);
    let flat = flatten(compiler);
    let out = join_path(target_arch.as_str(), flat.as_str());
    let suite_out = join_path(out.as_str(), "suite");
    let archive = join_path(out.as_str(), "libivshmem.a");
    let discovery = join_path(out.as_str(), "discovery.o");
    let polling = join_path(out.as_str(), "backend_polling.o");
    let errors = join_path(out.as_str(), "errors.o");
    let smoke_object = join_path(out.as_str(), "main.o");
    let suite_object = join_path(suite_out.as_str(), "main.o");
    let legacy = join_path(out.as_str(), "ivshmem-bar2-smoke");
    let suite = join_path(out.as_str(), "ivshmem-pci-suite");
    let mut steps: Vec<BuildStep> = Vec::new();
    push_step(&mut steps, BuildStep::CreateDir(text::text_of(out.as_str())));
    let source = join_path(lib.as_str(), "discovery.c");
    push_step(
        &mut steps,
        compile_c_source(compiler, lib.as_str(), source.as_str(), discovery.as_str()),
    );
    let source = join_path(lib.as_str(), "backend_polling.c");
    push_step(
        &mut steps,
        compile_c_source(compiler, lib.as_str(), source.as_str(), polling.as_str()),
    );
    let source = join_path(lib.as_str(), "errors.c");
    push_step(
        &mut steps,
        compile_c_source(compiler, lib.as_str(), source.as_str(), errors.as_str()),
    );
    let source = join_path(sources.as_str(), "bar2_smoke/main.c");
    push_step(
        &mut steps,
        compile_c_source(compiler, lib.as_str(), source.as_str(), smoke_object.as_str()),
    );
    push_step(&mut steps, BuildStep::CreateDir(text::text_of(suite_out.as_str())));
    let source = join_path(sources.as_str(), "suite/main.c");
    push_step(
        &mut steps,
        compile_c_source(compiler, lib.as_str(), source.as_str(), suite_object.as_str()),
    );
    push_step(
        &mut steps,
        archive_objects(
            arch,
            compiler,
            archive.as_str(),
            discovery.as_str(),
            polling.as_str(),
            errors.as_str(),
        ),
    );
    push_step(
        &mut steps,
        link_smoke_binary(
            compiler,
            legacy.as_str(),
            smoke_object.as_str(),
            archive.as_str(),
            link_flags,
        ),
    );
    push_step(
        &mut steps,
        link_smoke_binary(
            compiler,
            suite.as_str(),
            suite_object.as_str(),
            archive.as_str(),
            link_flags,
        ),
    );
    assert(step_views(steps@) =~= smoke_steps(
        workspace_root@,
        arch@,
        compiler@,
        slices(link_flags@),
    ));
    Ok(SmokeBuild { steps, legacy, suite })
}

fn archive_objects(
    arch: &str,
    compiler: &str,
    archive: &str,
    first: &str,
    second: &str,
    third: &str,
) -> (step: BuildStep)
    ensures
        step@ == (BuildStepView::Run {
            program: archiver_of(arch@, compiler@),
            args: seq!["rcs"@, archive@, first@, second@, third@],
            failure: "failed to archive the ivshmem adapter library"@,
        }),
{
    let mut args: Vec<String> = Vec::new();
    push_arg(&mut args, "rcs");
    push_arg(&mut args, archive);
    push_arg(&mut args, first);
    push_arg(&mut args, second);
    push_arg(&mut args, third);
    assert(texts(args@) =~= seq!["rcs"@, archive@, first@, second@, third@]);
    let failure = text::text_of("failed to archive the ivshmem adapter library");
    BuildStep::Run(BuildCommand { program: archiver_name(arch, compiler), args, failure })
}

/// The link flags of guest programs: no loader is needed.
pub open spec fn static_link_flags() -> Seq<Seq<char>> {
    seq!["-static"@, "-Wl,--gc-sections"@]
}

/// Plans the build of both statically linked guest programs; `compiler` is the
/// cross compiler of the architecture.
pub fn build_smoke_binaries(workspace_root: &str, arch: &str, compiler: &str) -> (plan: Result<
    SmokeBuild,
    &'static str,
>)
    ensures
        match plan {
            Ok(plan) => {
                &&& arch@ == "aarch64"@
                &&& step_views(plan.steps@) == smoke_steps(
                    workspace_root@,
                    arch@,
                    compiler@,
                    static_link_flags(),
                )
                &&& plan.legacy@ == joined(
                    object_dir(workspace_root@, arch@, compiler@),
                    "ivshmem-bar2-smoke"@,
                )
                &&& plan.suite@ == joined(
                    object_dir(workspace_root@, arch@, compiler@),
                    "ivshmem-pci-suite"@,
                )
            },
            Err(message) => arch@ != "aarch64"@ && message@
                == "the ivshmem smoke binary is currently built for aarch64 only"@,
        },
{
    let mut flags: Vec<&str> = Vec::new();
    flags.push("-static");
    flags.push("-Wl,--gc-sections");
    assert(slices(flags@) =~= static_link_flags());
    build_smoke_binaries_with(workspace_root, arch, compiler, &flags)
}

/// Returns where the kernel modules are: the core module and the ivshmem
/// module, in a directory inside the workspace.
pub fn read_uio_modules(workspace_root: &str, configured_dir: &str) -> (paths: Result<
    (String, String),
    String,
>)
    ensures
        match paths {
            Ok(paths) => {
                let dir = joined(workspace_root@, configured_dir@);
                &&& stays_inside(configured_dir@)
                &&& paths.0@ == joined(dir, "uio.ko"@)
                &&& paths.1@ == joined(dir, "uio_ivshmem.ko"@)
            },
            Err(message) => !stays_inside(configured_dir@) && message@
                == "AXVISOR_TEST_IVSHMEM_UIO_MODULE_DIR"@
                + " must be a workspace-relative path without parent traversal"@,
        },
{
    match workspace_relative_path(
        workspace_root,
        configured_dir,
        "AXVISOR_TEST_IVSHMEM_UIO_MODULE_DIR",
    ) {
        Ok(dir) => Ok(
            (join_path(dir.as_str(), "uio.ko"), join_path(dir.as_str(), "uio_ivshmem.ko")),
        ),
        Err(message) => Err(message),
    }
}

/// Plans the build of the ArceOS peer with a build configuration inside the
/// workspace.
pub fn build_arceos_smoke(workspace_root: &str, arch: &str, configured_build: &str) -> (plan:
    Result<ArceosBuild, String>)
    ensures
        match plan {
            Ok(plan) => {
                let config = joined(workspace_root@, configured_build@);
                &&& arch@ == "aarch64"@
                &&& stays_inside(configured_build@)
                &&& plan.config@ == config
                &&& texts(plan.args@) == seq![
                    "arceos"@,
                    "build"@,
                    "--package"@,
                    "arceos-ivshmem-pci"@,
                    "--config"@,
                    config,
                ]
                &&& plan.image@ == joined(
                    workspace_root@,
                    "target/aarch64-unknown-linux-musl/release/arceos-ivshmem-pci.bin"@,
                )
            },
            Err(message) => if arch@ != "aarch64"@ {
                message@ == "the ArceOS ivshmem peer is currently built for aarch64 only"@
            } else {
                !stays_inside(configured_build@) && message@
                    == "AXVISOR_TEST_IVSHMEM_ARCEOS_SMOKE"@
                    + " must be a workspace-relative path without parent traversal"@
            },
        },
{
    if !text::text_eq(arch, "aarch64") {
        return Err(
            text::text_of("the ArceOS ivshmem peer is currently built for aarch64 only"),
        );
    }
    let config = match workspace_relative_path(
        workspace_root,
        configured_build,
        "AXVISOR_TEST_IVSHMEM_ARCEOS_SMOKE",
    ) {
        Ok(config) => config,
        Err(message) => {
            return Err(message);
        },
    };
    let mut args: Vec<String> = Vec::new();
    push_arg(&mut args, "arceos");
    push_arg(&mut args, "build");
    push_arg(&mut args, "--package");
    push_arg(&mut args, "arceos-ivshmem-pci");
    push_arg(&mut args, "--config");
    push_arg(&mut args, config.as_str());
    assert(texts(args@) =~= seq![
        "arceos"@,
        "build"@,
        "--package"@,
        "arceos-ivshmem-pci"@,
        "--config"@,
        config@,
    ]);
    let image = join_path(
        workspace_root,
        "target/aarch64-unknown-linux-musl/release/arceos-ivshmem-pci.bin",
    );
    Ok(ArceosBuild { config, args, image })
}

/// Returns the diagnostic for a build configuration that is no file.
pub fn missing_config_message(config: &str) -> (message: String)
    ensures
        message@ == config@ + " does not exist"@,
{
    let mut message = text::text_of(config);
    message.append(" does not exist");
    message
}

/// Returns the diagnostic for an image that was not produced.
pub fn missing_image_message(image: &str) -> (message: String)
    ensures
        message@ == "ArceOS ivshmem build did not produce "@ + image@,
{
    let mut message = text::text_of("ArceOS ivshmem build did not produce ");
    message.append(image);
    message
}

} // verus!
