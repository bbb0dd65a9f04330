//! The rule files of the targets: one makefile per target, with the rule that
//! links or archives it, one rule per object file, and the composed flags.

use vstd::prelude::*;
use vstd::string::*;
use crate::associated_files::{FileType, SourceFile, SourceFileView};
use crate::compiler::Type;
use crate::configurations::{build_type_name, BuildConfiguration, BuildType, Sanitizer};
use crate::include_file_generator::{warning_flags, warnings_for};
use crate::output::GeneratedFile;
use crate::pkg_config::PkgConfigLibrary;
use crate::registry::{
    traverse, ExternalRequirement, GenerationStatus, InternalRequirement, TargetKind, TargetNode,
    TargetRegistry,
};
use crate::targets::DependencySource;
use crate::text::{
    append_prefixed, append_texts, has_prefix, join, joined_with, prefixed_with, texts,
};
use crate::toolchain::{StdLibCXX, Toolchain};
use crate::utility::{
    get_head_directory, head_of, join_path, joined, replace_extension, replaced_extension,
};

verus! {

/// The directory into which the files of a target are generated: the build
/// directory under the directory of its sources, and below it one directory
/// for each build type.
pub open spec fn output_directory(path: Seq<char>, output_root: Seq<char>, build_type: BuildType) -> Seq<char> {
    joined(joined(path, output_root), build_type_name(build_type))
}

/// The flags of a build type: for a debug build no optimisation and debugger
/// data, and the flags of the sanitizer where one is configured; for a release
/// build full optimisation without assertions.
pub open spec fn build_type_flags(build_type: BuildType, sanitizer: Option<Sanitizer>) -> Seq<Seq<char>> {
    match build_type {
        BuildType::Debug => seq!["-g"@, "-O0"@, "-gdwarf"@] + sanitizer_flag_list(sanitizer),
        BuildType::Release => seq!["-O3"@, "-DNDEBUG"@],
    }
}

/// The flags that switch a sanitizer on. The thread sanitizer needs a
/// position-independent executable besides.
pub open spec fn sanitizer_flag_list(sanitizer: Option<Sanitizer>) -> Seq<Seq<char>> {
    match sanitizer {
        None => Seq::empty(),
        Some(Sanitizer::Address) => seq!["-fsanitize=address"@],
        Some(Sanitizer::Thread) => seq!["-fsanitize=thread"@, "-fPIE"@, "-pie"@],
        Some(Sanitizer::Leak) => seq!["-fsanitize=leak"@],
        Some(Sanitizer::Undefined) => seq!["-fsanitize=undefined"@],
    }
}

/// The flag that opens the search path of a requirement's headers.
pub open spec fn include_prefix(origin: DependencySource) -> Seq<char> {
    match origin {
        DependencySource::Include => "-I"@,
        DependencySource::System => "-isystem "@,
    }
}

/// The include paths of the targets that the internal requirements name, in order.
pub open spec fn internal_includes(nodes: Seq<TargetNode>, internal: Seq<InternalRequirement>) -> Seq<Seq<char>> {
    internal.map_values(|r: InternalRequirement| "-I"@ + nodes[r.key as int].include_directory@)
}

/// The flags of one external requirement: its include paths, then its compiler flags.
pub open spec fn flags_of_external(x: ExternalRequirement) -> Seq<Seq<char>> {
    prefixed_with(include_prefix(x.origin), texts(x.target.include_directories@)) + texts(x.target.cxx_flags@)
}

/// The flags of the external requirements, in order.
pub open spec fn external_flags(external: Seq<ExternalRequirement>) -> Seq<Seq<char>>
    decreases external.len(),
{
    if external.len() == 0 {
        Seq::empty()
    } else {
        external_flags(external.drop_last()) + flags_of_external(external.last())
    }
}

/// The library files of one external requirement.
pub open spec fn libraries_of_external(x: ExternalRequirement) -> Seq<Seq<char>> {
    x.target.library_paths@.map_values(|l: PkgConfigLibrary| joined(l@.dir, l@.name))
}

/// The library files of the external requirements, in order.
pub open spec fn external_libraries(external: Seq<ExternalRequirement>) -> Seq<Seq<char>>
    decreases external.len(),
{
    if external.len() == 0 {
        Seq::empty()
    } else {
        external_libraries(external.drop_last()) + libraries_of_external(external.last())
    }
}

/// The run-time libraries that every target is linked with.
pub open spec fn mandatory_libraries(stdlib: StdLibCXX) -> Seq<Seq<char>> {
    match stdlib {
        StdLibCXX::LibStdCXX => seq!["-lstdc++"@],
        StdLibCXX::LibCXX => seq!["-lc++"@],
    }
}

/// The flags that a target declares: its compiler flags, its preprocessor
/// flags, and one definition for each of its defines.
pub open spec fn declared_flags(node: TargetNode) -> Seq<Seq<char>> {
    texts(node.cxx_flags@) + texts(node.cpp_flags@) + prefixed_with("-D"@, texts(node.defines@))
}

/// The flags with which the sources of the target `u` are compiled. Their order
/// is fixed, since a later flag overrides an earlier one: the common warnings,
/// the flags of the build type, the flags that the target declares, the include
/// paths of its internal requirements, and the flags of its external requirements.
pub open spec fn compile_flags(
    nodes: Seq<TargetNode>,
    u: int,
    vendor: Type,
    build_type: BuildType,
    sanitizer: Option<Sanitizer>,
) -> Seq<Seq<char>> {
    warning_flags(vendor) + build_type_flags(build_type, sanitizer) + declared_flags(nodes[u]) + internal_includes(
        nodes,
        nodes[u].internal@,
    ) + external_flags(nodes[u].external@)
}

/// The flags with which the target `u` is linked: those of compilation, then
/// the libraries of its external requirements, then the mandatory run-time libraries.
pub open spec fn link_flags(
    nodes: Seq<TargetNode>,
    u: int,
    vendor: Type,
    build_type: BuildType,
    sanitizer: Option<Sanitizer>,
    stdlib: StdLibCXX,
) -> Seq<Seq<char>> {
    compile_flags(nodes, u, vendor, build_type, sanitizer) + external_libraries(nodes[u].external@)
        + mandatory_libraries(stdlib)
}

/// The name of the file of a library target.
pub open spec fn library_file_name(name: Seq<char>, kind: TargetKind) -> Seq<char> {
    match kind {
        TargetKind::DynamicLibrary => "lib"@ + name + ".so"@,
        _ => "lib"@ + name + ".a"@,
    }
}

/// The paths of the files among `files` that are compiled, in order.
pub open spec fn source_paths(files: Seq<SourceFileView>) -> Seq<Seq<char>>
    decreases files.len(),
{
    if files.len() == 0 {
        Seq::empty()
    } else if files.last().file_type == FileType::Source {
        source_paths(files.drop_last()).push(files.last().file)
    } else {
        source_paths(files.drop_last())
    }
}

/// The file made from the source `source` in the directory `directory`: the
/// name of the source with `extension` in place of its own.
pub open spec fn derived_file(directory: Seq<char>, source: Seq<char>, extension: Seq<char>) -> Seq<char> {
    joined(directory, replaced_extension(head_of(source), extension))
}

/// The files with `extension` made from the sources `sources` in `directory`.
pub open spec fn derived_files(directory: Seq<char>, sources: Seq<Seq<char>>, extension: Seq<char>) -> Seq<Seq<char>> {
    sources.map_values(|s: Seq<char>| derived_file(directory, s, extension))
}

/// The library files of the targets that the internal requirements name, in
/// order, each in the output directory of its target. A required executable gives none.
pub open spec fn required_libraries(
    nodes: Seq<TargetNode>,
    internal: Seq<InternalRequirement>,
    output_root: Seq<char>,
    build_type: BuildType,
) -> Seq<Seq<char>>
    decreases internal.len(),
{
    if internal.len() == 0 {
        Seq::empty()
    } else {
        let before = required_libraries(nodes, internal.drop_last(), output_root, build_type);
        let target = nodes[internal.last().key as int];
        if target.kind == TargetKind::Executable {
            before
        } else {
            before.push(
                joined(
                    output_directory(target.path@, output_root, build_type),
                    library_file_name(target.name@, target.kind),
                ),
            )
        }
    }
}

/// The directory into which the files of a target are generated.
pub fn output_directory_of(path: &str, output_root: &str, build_type: BuildType) -> (r: String)
    ensures
        r@ == output_directory(path@, output_root@, build_type),
{
    let build = join_path(path, output_root);
    let segment = build_type.to_string();
    join_path(build.as_str(), segment.as_str())
}

/// The flags of a build type.
pub fn flags_of_build_type(build_type: BuildType, sanitizer: Option<Sanitizer>) -> (r: Vec<String>)
    ensures
        texts(r@) == build_type_flags(build_type, sanitizer),
{
    let mut flags: Vec<String> = Vec::new();
    match build_type {
        BuildType::Debug => {
            flags.push(String::from_str("-g"));
            flags.push(String::from_str("-O0"));
            flags.push(String::from_str("-gdwarf"));
            assert(texts(flags@) =~= seq!["-g"@, "-O0"@, "-gdwarf"@]);
            match sanitizer {
                None => {
                    assert(texts(flags@) =~= build_type_flags(build_type, sanitizer));
                },
                Some(Sanitizer::Address) => {
                    flags.push(String::from_str("-fsanitize=address"));
                    assert(texts(flags@) =~= build_type_flags(build_type, sanitizer));
                },
                Some(Sanitizer::Thread) => {
                    flags.push(String::from_str("-fsanitize=thread"));
                    flags.push(String::from_str("-fPIE"));
                    flags.push(String::from_str("-pie"));
                    assert(texts(flags@) =~= build_type_flags(build_type, sanitizer));
                },
                Some(Sanitizer::Leak) => {
                    flags.push(String::from_str("-fsanitize=leak"));
                    assert(texts(flags@) =~= build_type_flags(build_type, sanitizer));
                },
                Some(Sanitizer::Undefined) => {
                    flags.push(String::from_str("-fsanitize=undefined"));
                    assert(texts(flags@) =~= build_type_flags(build_type, sanitizer));
                },
            }
        },
        BuildType::Release => {
            flags.push(String::from_str("-O3"));
            flags.push(String::from_str("-DNDEBUG"));
            assert(texts(flags@) =~= build_type_flags(build_type, sanitizer));
        },
    }
    flags
}

/// The name of the file of a library target.
pub fn library_file_name_of(name: &str, kind: TargetKind) -> (r: String)
    ensures
        r@ == library_file_name(name@, kind),
{
    match kind {
        TargetKind::DynamicLibrary => String::from_str("lib").concat(name).concat(".so"),
        _ => String::from_str("lib").concat(name).concat(".a"),
    }
}

/// The paths of the files among `files` that are compiled, in order.
pub fn sources_among(files: &Vec<SourceFile>) -> (r: Vec<String>)
    ensures
        texts(r@) == source_paths(files@.map_values(|f: SourceFile| f@)),
{
    let ghost views = files@.map_values(|f: SourceFile| f@);
    let mut out: Vec<String> = Vec::new();
    let mut i: usize = 0;
    assert(texts(out@) =~= source_paths(views.take(0)));
    while i < files.len()
        invariant
            i <= files.len(),
            views == files@.map_values(|f: SourceFile| f@),
            texts(out@) == source_paths(views.take(i as int)),
        decreases files.len() - i,
    {
        proof {
            assert(views.take(i + 1).drop_last() =~= views.take(i as int));
            assert(views.take(i + 1).last() == files@[i as int]@);
        }
        if files[i].is_source() {
            let ghost before = out@;
            out.push(files[i].file());
            assert(texts(out@) =~= texts(before).push(files@[i as int]@.file));
        }
        i += 1;
    }
    assert(views.take(files.len() as int) =~= views);
    out
}

/// The files with `extension` made from the sources `sources` in `directory`.
pub fn derive_files(directory: &str, sources: &Vec<String>, extension: &str) -> (r: Vec<String>)
    ensures
        texts(r@) == derived_files(directory@, texts(sources@), extension@),
{
    let mut out: Vec<String> = Vec::new();
    let mut i: usize = 0;
    while i < sources.len()
        invariant
            i <= sources.len(),
            out.len() == i,
            forall|k: int| 0 <= k < i ==> (#[trigger] out@[k])@ == derived_file(directory@, sources@[k]@, extension@),
        decreases sources.len() - i,
    {
        let name = get_head_directory(sources[i].as_str());
        let renamed = replace_extension(name.as_str(), extension);
        out.push(join_path(directory, renamed.as_str()));
        i += 1;
    }
    assert(texts(out@) =~= derived_files(directory@, texts(sources@), extension@));
    out
}

pub const HEADER_HEAD: &'static str =
    "# Generated by MmkGenerator.generate_header(). DO NOT EDIT THIS FILE.\n\n# ----- INCLUDES -----\ninclude ";

pub const HEADER_PHONIES: &'static str = "\n# ----- DEFAULT PHONIES -----\n\n\
.SUFFIXES:         # We do not use suffixes on makefiles.\n\
.PHONY: all\n\
.PHONY: package\n\
.PHONY: install\n\
.PHONY: uninstall\n\
.PHONY: clean\n";

pub const COMPILE_HEAD: &'static str = "\n\t$(strip $(CXX) $(CXXFLAGS) $(CPPFLAGS) ";

pub const COMPILE_TAIL: &'static str = " $< -c -o $@)";

pub const LINK_HEAD: &'static str = "\n\t$(strip $(CXX) $(CXXFLAGS) $(CPPFLAGS) $^ ";

pub const SHARED_LINK_HEAD: &'static str = "\n\t$(strip $(CXX) -shared $(CXXFLAGS) $(CPPFLAGS) $^ ";

pub const LINK_TAIL: &'static str = " $(LDFLAGS) -o $@)\n\n";

pub const ARCHIVE_RECIPE: &'static str = "\n\t$(strip $(AR) $(ARFLAGS) $@ $?)\n\n";

pub const EXECUTABLE_HEAD: &'static str = "\n#Generated by MmkGenerator.generate_rule_executable(). \n\n.PHONY: ";

pub const PACKAGE_HEAD: &'static str = "\n#Generated by MmkGenerator.generate_rule_package(). \n\n";

/// The head of a rule file: the shared fragments, of which the one of the build
/// type comes last, and the phony targets.
pub open spec fn header_text(shared: Seq<char>, build_type: BuildType) -> Seq<char> {
    HEADER_HEAD@ + shared + "/warnings.mk\ninclude "@ + shared + "/default_make.mk\ninclude "@ + shared + "/"@
        + build_type_name(build_type) + ".mk\n"@ + HEADER_PHONIES@
}

/// One line that adds `flags` to the variable `variable`; nothing where there are no flags.
pub open spec fn appended_line(variable: Seq<char>, flags: Seq<Seq<char>>) -> Seq<char> {
    if flags.len() == 0 {
        Seq::empty()
    } else {
        variable + " += "@ + joined_with(flags, " "@) + "\n"@
    }
}

/// The lines that add the flags a target declares to the compiler's and to the preprocessor's flags.
pub open spec fn appending_flags_text(node: TargetNode) -> Seq<char> {
    appended_line("CXXFLAGS"@, texts(node.cxx_flags@)) + appended_line("CPPFLAGS"@, texts(node.cpp_flags@))
}

/// The prerequisites of a rule, one to a line.
pub open spec fn prerequisites_text(items: Seq<Seq<char>>) -> Seq<char> {
    if items.len() == 0 {
        Seq::empty()
    } else {
        "\\\n\t"@ + joined_with(items, " \\\n\t"@)
    }
}

/// The rule that compiles `source` to `object` with `flags`.
pub open spec fn object_rule(object: Seq<char>, source: Seq<char>, flags: Seq<char>) -> Seq<char> {
    object + ": \\\n\t"@ + source + COMPILE_HEAD@ + flags + COMPILE_TAIL@
}

/// The rules that compile each of `sources` to the object of the same number.
pub open spec fn object_rules(objects: Seq<Seq<char>>, sources: Seq<Seq<char>>, flags: Seq<char>) -> Seq<Seq<char>> {
    Seq::new(sources.len(), |i: int| object_rule(objects[i], sources[i], flags))
}

/// The lines that include the dependency files, where they exist.
pub open spec fn sinclude_lines(files: Seq<Seq<char>>) -> Seq<Seq<char>> {
    files.map_values(|f: Seq<char>| "sinclude "@ + f + "\n"@)
}

/// What the text of a rule file depends on besides the targets.
pub ghost struct Setting {
    pub vendor: Type,
    pub stdlib: StdLibCXX,
    pub build_type: BuildType,
    pub sanitizer: Option<Sanitizer>,
    pub output_root: Seq<char>,
    pub shared: Seq<char>,
}

/// The output directory of the target `u`.
pub open spec fn directory_of(nodes: Seq<TargetNode>, u: int, setting: Setting) -> Seq<char> {
    output_directory(nodes[u].path@, setting.output_root, setting.build_type)
}

/// The object files of the target `u`.
pub open spec fn objects_of(nodes: Seq<TargetNode>, u: int, setting: Setting) -> Seq<Seq<char>> {
    derived_files(directory_of(nodes, u, setting), source_paths(nodes[u].sources@), "o"@)
}

/// The prerequisites of the target `u`: its object files, then the libraries it requires.
pub open spec fn prerequisites_of(nodes: Seq<TargetNode>, u: int, setting: Setting) -> Seq<char> {
    prerequisites_text(
        objects_of(nodes, u, setting) + required_libraries(
            nodes,
            nodes[u].internal@,
            setting.output_root,
            setting.build_type,
        ),
    )
}

/// The compile flags of the target `u` on one line.
pub open spec fn compile_line_of(nodes: Seq<TargetNode>, u: int, setting: Setting) -> Seq<char> {
    joined_with(compile_flags(nodes, u, setting.vendor, setting.build_type, setting.sanitizer), " "@)
}

/// The link flags of the target `u` on one line.
pub open spec fn link_line_of(nodes: Seq<TargetNode>, u: int, setting: Setting) -> Seq<char> {
    joined_with(link_flags(nodes, u, setting.vendor, setting.build_type, setting.sanitizer, setting.stdlib), " "@)
}

/// The object rules of the target `u`, an empty line between each two.
pub open spec fn object_rules_of(nodes: Seq<TargetNode>, u: int, setting: Setting) -> Seq<char> {
    joined_with(
        object_rules(objects_of(nodes, u, setting), source_paths(nodes[u].sources@), compile_line_of(nodes, u, setting)),
        "\n\n"@,
    )
}

/// The lines that include the dependency files of the target `u`.
pub open spec fn header_includes_of(nodes: Seq<TargetNode>, u: int, setting: Setting) -> Seq<char> {
    joined_with(
        sinclude_lines(derived_files(directory_of(nodes, u, setting), source_paths(nodes[u].sources@), "d"@)),
        Seq::empty(),
    )
}

/// The file that the library target `u` is built to.
pub open spec fn library_of(nodes: Seq<TargetNode>, u: int, setting: Setting) -> Seq<char> {
    joined(directory_of(nodes, u, setting), library_file_name(nodes[u].name@, nodes[u].kind))
}

/// What follows the main rule in every rule file: the object rules and the dependency files.
pub open spec fn rule_tail(nodes: Seq<TargetNode>, u: int, setting: Setting) -> Seq<char> {
    object_rules_of(nodes, u, setting) + "\n\n"@ + header_includes_of(nodes, u, setting) + "\n"@
}

/// The rules of an executable target: a phony target of its name that links
/// its objects and the libraries it requires, then the object rules.
pub open spec fn executable_rule(nodes: Seq<TargetNode>, u: int, setting: Setting) -> Seq<char> {
    EXECUTABLE_HEAD@ + nodes[u].name@ + "\n"@ + nodes[u].name@ + ": "@ + prerequisites_of(nodes, u, setting) + LINK_HEAD@
        + link_line_of(nodes, u, setting) + LINK_TAIL@ + rule_tail(nodes, u, setting)
}

/// The rules of a library target: the rule that archives or links its objects, then the object rules.
pub open spec fn package_rule(nodes: Seq<TargetNode>, u: int, setting: Setting) -> Seq<char> {
    let head = PACKAGE_HEAD@ + library_of(nodes, u, setting) + ": "@ + prerequisites_of(nodes, u, setting);
    if nodes[u].kind == TargetKind::DynamicLibrary {
        head + SHARED_LINK_HEAD@ + link_line_of(nodes, u, setting) + LINK_TAIL@ + rule_tail(nodes, u, setting)
    } else {
        head + ARCHIVE_RECIPE@ + rule_tail(nodes, u, setting)
    }
}

/// The whole rule file of the target `u`.
pub open spec fn makefile_text(nodes: Seq<TargetNode>, u: int, setting: Setting) -> Seq<char> {
    header_text(setting.shared, setting.build_type) + appending_flags_text(nodes[u]) + if nodes[u].kind
        == TargetKind::Executable {
        executable_rule(nodes, u, setting)
    } else {
        package_rule(nodes, u, setting)
    }
}

/// The path of the rule file of the target `u`.
pub open spec fn makefile_path(nodes: Seq<TargetNode>, u: int, setting: Setting) -> Seq<char> {
    joined(directory_of(nodes, u, setting), "makefile"@)
}

/// Why no rule files were generated, or why one could not be written.
#[derive(Debug, PartialEq, Eq, Clone)]
pub enum GeneratorError {
    /// The registry holds no target under this key.
    UnknownTarget(usize),
    /// The rule file of a target could not be written; holds the target's name,
    /// the path of the file, and the cause.
    WriteFailed { target: String, path: String, cause: String },
}

/// The rule file of one target.
#[derive(Debug, PartialEq, Eq, Clone)]
pub struct TargetFile {
    /// The key of the target in the registry.
    pub key: usize,
    /// The name of the target.
    pub name: String,
    pub file: GeneratedFile,
}

/// Generates the rule files of targets, for one toolchain and one configuration.
pub struct MmkGenerator<'a> {
    toolchain: &'a Toolchain,
    configuration: &'a BuildConfiguration,
    shared_directory: String,
}

impl<'a> MmkGenerator<'a> {
    /// What the generated text depends on besides the targets.
    pub closed spec fn setting(&self) -> Setting {
        Setting {
            vendor: self.toolchain.cxx_compiler.vendor(),
            stdlib: self.toolchain.stdlib,
            build_type: self.configuration.build_type,
            sanitizer: self.configuration.sanitizer,
            output_root: self.configuration.output_root@,
            shared: self.shared_directory@,
        }
    }

    /// A generator for `toolchain` and `configuration`, whose rule files include
    /// the shared fragments in `shared_directory`.
    pub fn new(toolchain: &'a Toolchain, configuration: &'a BuildConfiguration, shared_directory: &str) -> (r: Self)
        ensures
            r.setting() == (Setting {
                vendor: toolchain.cxx_compiler.vendor(),
                stdlib: toolchain.stdlib,
                build_type: configuration.build_type,
                sanitizer: configuration.sanitizer,
                output_root: configuration.output_root@,
                shared: shared_directory@,
            }),
    {
        MmkGenerator { toolchain, configuration, shared_directory: String::from_str(shared_directory) }
    }

    /// The include paths of the internal requirements of the target `key`, then
    /// the flags of its external requirements.
    pub fn print_dependencies(&self, registry: &TargetRegistry, key: usize) -> (r: Vec<String>)
        requires
            registry.wf(),
            key < registry.nodes().len(),
        ensures
            texts(r@) == internal_includes(registry.nodes(), registry.nodes()[key as int].internal@) + external_flags(
                registry.nodes()[key as int].external@,
            ),
    {
        proof {
            registry.lemma_wf();
        }
        let ghost nodes = registry.nodes();
        let node = match registry.get(key) {
            Some(node) => node,
            None => {
                return Vec::new();
            },
        };
        let mut flags: Vec<String> = Vec::new();
        let mut i: usize = 0;
        assert(texts(flags@) =~= internal_includes(nodes, node.internal@.take(0)));
        while i < node.internal.len()
            invariant
                i <= node.internal.len(),
                nodes == registry.nodes(),
                *node == nodes[key as int],
                key < nodes.len(),
                forall|e: int| 0 <= e < node.internal.len() ==> (#[trigger] node.internal@[e]).key < nodes.len(),
                texts(flags@) == internal_includes(nodes, node.internal@.take(i as int)),
            decreases node.internal.len() - i,
        {
            let required = &node.internal[i];
            match registry.get(required.key) {
                Some(target) => {
                    let ghost before = flags@;
                    flags.push(String::from_str("-I").concat(target.include_directory.as_str()));
                    proof {
                        assert(texts(flags@) =~= texts(before).push("-I"@ + target.include_directory@));
                        assert(internal_includes(nodes, node.internal@.take(i + 1)) =~= internal_includes(
                            nodes,
                            node.internal@.take(i as int),
                        ).push("-I"@ + nodes[required.key as int].include_directory@));
                    }
                },
                None => {
                    assert(false);
                },
            }
            i += 1;
        }
        assert(node.internal@.take(node.internal.len() as int) =~= node.internal@);
        let ghost internal = texts(flags@);
        let mut k: usize = 0;
        assert(texts(flags@) =~= internal + external_flags(node.external@.take(0)));
        while k < node.external.len()
            invariant
                k <= node.external.len(),
                texts(flags@) == internal + external_flags(node.external@.take(k as int)),
            decreases node.external.len() - k,
        {
            let x = &node.external[k];
            let ghost before = texts(flags@);
            let prefix = match x.origin {
                DependencySource::Include => "-I",
                DependencySource::System => "-isystem ",
            };
            append_prefixed(&mut flags, prefix, &x.target.include_directories);
            append_texts(&mut flags, &x.target.cxx_flags);
            proof {
                assert(node.external@.take(k + 1).drop_last() =~= node.external@.take(k as int));
                assert(node.external@.take(k + 1).last() == *x);
                assert(texts(flags@) =~= before + flags_of_external(*x));
                assert(texts(flags@) =~= internal + external_flags(node.external@.take(k + 1)));
            }
            k += 1;
        }
        assert(node.external@.take(node.external.len() as int) =~= node.external@);
        flags
    }

    /// The run-time libraries that every target is linked with.
    pub fn print_mandatory_libraries(&self) -> (r: Vec<String>)
        ensures
            texts(r@) == mandatory_libraries(self.setting().stdlib),
    {
        let mut libraries: Vec<String> = Vec::new();
        match self.toolchain.stdlib {
            StdLibCXX::LibStdCXX => libraries.push(String::from_str("-lstdc++")),
            StdLibCXX::LibCXX => libraries.push(String::from_str("-lc++")),
        }
        assert(texts(libraries@) =~= mandatory_libraries(self.setting().stdlib));
        libraries
    }

    /// The flags with which the sources of the target `key` are compiled.
    pub fn compose_compile_flags(&self, registry: &TargetRegistry, key: usize) -> (r: Vec<String>)
        requires
            registry.wf(),
            key < registry.nodes().len(),
        ensures
            texts(r@) == compile_flags(
                registry.nodes(),
                key as int,
                self.setting().vendor,
                self.setting().build_type,
                self.setting().sanitizer,
            ),
    {
        let node = match registry.get(key) {
            Some(node) => node,
            None => {
                return Vec::new();
            },
        };
        let mut flags = warnings_for(*self.toolchain.cxx_compiler.compiler_type());
        let build = flags_of_build_type(self.configuration.build_type, self.configuration.sanitizer);
        append_texts(&mut flags, &build);
        let ghost common = texts(flags@);
        append_texts(&mut flags, &node.cxx_flags);
        append_texts(&mut flags, &node.cpp_flags);
        append_prefixed(&mut flags, "-D", &node.defines);
        assert(texts(flags@) =~= common + declared_flags(*node));
        let dependencies = self.print_dependencies(registry, key);
        append_texts(&mut flags, &dependencies);
        assert(texts(flags@) =~= compile_flags(
            registry.nodes(),
            key as int,
            self.setting().vendor,
            self.setting().build_type,
            self.setting().sanitizer,
        ));
        flags
    }

    /// The library files of the external requirements of the target `key`.
    pub fn print_external_libraries(&self, registry: &TargetRegistry, key: usize) -> (r: Vec<String>)
        requires
            key < registry.nodes().len(),
        ensures
            texts(r@) == external_libraries(registry.nodes()[key as int].external@),
    {
        let node = match registry.get(key) {
            Some(node) => node,
            None => {
                return Vec::new();
            },
        };
        let mut libraries: Vec<String> = Vec::new();
        let mut k: usize = 0;
        assert(texts(libraries@) =~= external_libraries(node.external@.take(0)));
        while k < node.external.len()
            invariant
                k <= node.external.len(),
                texts(libraries@) == external_libraries(node.external@.take(k as int)),
            decreases node.external.len() - k,
        {
            let x = &node.external[k];
            let ghost before = texts(libraries@);
            let paths = &x.target.library_paths;
            let mut j: usize = 0;
            assert(texts(libraries@) =~= before + libraries_of_external(*x).take(0));
            while j < paths.len()
                invariant
                    j <= paths.len(),
                    paths@ == x.target.library_paths@,
                    texts(libraries@) == before + libraries_of_external(*x).take(j as int),
                decreases paths.len() - j,
            {
                let ghost so_far = texts(libraries@);
                libraries.push(paths[j].path());
                proof {
                    assert(texts(libraries@) =~= so_far.push(joined(paths@[j as int]@.dir, paths@[j as int]@.name)));
                    assert(libraries_of_external(*x).take(j + 1) =~= libraries_of_external(*x).take(j as int).push(
                        joined(paths@[j as int]@.dir, paths@[j as int]@.name),
                    ));
                }
                j += 1;
            }
            proof {
                assert(libraries_of_external(*x).take(paths.len() as int) =~= libraries_of_external(*x));
                assert(node.external@.take(k + 1).drop_last() =~= node.external@.take(k as int));
                assert(node.external@.take(k + 1).last() == *x);
            }
            k += 1;
        }
        assert(node.external@.take(node.external.len() as int) =~= node.external@);
        libraries
    }

    /// The flags with which the target `key` is linked.
    pub fn compose_link_flags(&self, registry: &TargetRegistry, key: usize) -> (r: Vec<String>)
        requires
            registry.wf(),
            key < registry.nodes().len(),
        ensures
            texts(r@) == link_flags(
                registry.nodes(),
                key as int,
                self.setting().vendor,
                self.setting().build_type,
                self.setting().sanitizer,
                self.setting().stdlib,
            ),
    {
        let mut flags = self.compose_compile_flags(registry, key);
        let external = self.print_external_libraries(registry, key);
        append_texts(&mut flags, &external);
        let mandatory = self.print_mandatory_libraries();
        append_texts(&mut flags, &mandatory);
        flags
    }
}

impl<'a> MmkGenerator<'a> {
    /// The directory into which the files of the target `key` are generated.
    pub fn output_directory(&self, registry: &TargetRegistry, key: usize) -> (r: String)
        requires
            key < registry.nodes().len(),
        ensures
            r@ == directory_of(registry.nodes(), key as int, self.setting()),
    {
        match registry.get(key) {
            Some(node) => output_directory_of(
                node.path.as_str(),
                self.configuration.output_root.as_str(),
                self.configuration.build_type,
            ),
            None => String::new(),
        }
    }

    /// The sources of the target `key` that are compiled.
    pub fn print_sources(&self, registry: &TargetRegistry, key: usize) -> (r: Vec<String>)
        requires
            key < registry.nodes().len(),
        ensures
            texts(r@) == source_paths(registry.nodes()[key as int].sources@),
    {
        match registry.get(key) {
            Some(node) => {
                let files = node.sources.iter();
                assert(files@.map_values(|f: SourceFile| f@) =~= node.sources@);
                sources_among(files)
            },
            None => Vec::new(),
        }
    }

    /// The library files of the targets that the target `key` requires.
    pub fn print_required_dependencies_libraries(&self, registry: &TargetRegistry, key: usize) -> (r: Vec<String>)
        requires
            registry.wf(),
            key < registry.nodes().len(),
        ensures
            texts(r@) == required_libraries(
                registry.nodes(),
                registry.nodes()[key as int].internal@,
                self.setting().output_root,
                self.setting().build_type,
            ),
    {
        proof {
            registry.lemma_wf();
        }
        let ghost nodes = registry.nodes();
        let ghost root = self.setting().output_root;
        let ghost build_type = self.setting().build_type;
        let node = match registry.get(key) {
            Some(node) => node,
            None => {
                return Vec::new();
            },
        };
        let mut libraries: Vec<String> = Vec::new();
        let mut i: usize = 0;
        assert(texts(libraries@) =~= required_libraries(nodes, node.internal@.take(0), root, build_type));
        while i < node.internal.len()
            invariant
                i <= node.internal.len(),
                nodes == registry.nodes(),
                root == self.setting().output_root,
                build_type == self.setting().build_type,
                forall|e: int| 0 <= e < node.internal.len() ==> (#[trigger] node.internal@[e]).key < nodes.len(),
                texts(libraries@) == required_libraries(nodes, node.internal@.take(i as int), root, build_type),
            decreases node.internal.len() - i,
        {
            let required = &node.internal[i];
            proof {
                assert(node.internal@.take(i + 1).drop_last() =~= node.internal@.take(i as int));
                assert(node.internal@.take(i + 1).last() == *required);
            }
            match registry.get(required.key) {
                Some(target) => {
                    match target.kind {
                        TargetKind::Executable => {},
                        _ => {
                            let directory = output_directory_of(
                                target.path.as_str(),
                                self.configuration.output_root.as_str(),
                                self.configuration.build_type,
                            );
                            let name = library_file_name_of(target.name.as_str(), target.kind);
                            let ghost before = texts(libraries@);
                            libraries.push(join_path(directory.as_str(), name.as_str()));
                            assert(texts(libraries@) =~= before.push(
                                joined(
                                    output_directory(target.path@, root, build_type),
                                    library_file_name(target.name@, target.kind),
                                ),
                            ));
                        },
                    }
                },
                None => {
                    assert(false);
                },
            }
            i += 1;
        }
        assert(node.internal@.take(node.internal.len() as int) =~= node.internal@);
        libraries
    }

    /// The file that the library target `key` is built to.
    pub fn print_library_name(&self, registry: &TargetRegistry, key: usize) -> (r: String)
        requires
            key < registry.nodes().len(),
        ensures
            r@ == library_of(registry.nodes(), key as int, self.setting()),
    {
        let directory = self.output_directory(registry, key);
        match registry.get(key) {
            Some(node) => {
                let name = library_file_name_of(node.name.as_str(), node.kind);
                join_path(directory.as_str(), name.as_str())
            },
            None => String::new(),
        }
    }

    /// The prerequisites of the target `key`, one to a line.
    pub fn print_prerequisites(&self, registry: &TargetRegistry, key: usize) -> (r: String)
        requires
            registry.wf(),
            key < registry.nodes().len(),
        ensures
            r@ == prerequisites_of(registry.nodes(), key as int, self.setting()),
    {
        let directory = self.output_directory(registry, key);
        let sources = self.print_sources(registry, key);
        let mut items = derive_files(directory.as_str(), &sources, "o");
        let libraries = self.print_required_dependencies_libraries(registry, key);
        append_texts(&mut items, &libraries);
        if items.len() == 0 {
            String::new()
        } else {
            String::from_str("\\\n\t").concat(join(&items, " \\\n\t").as_str())
        }
    }

    /// The rules that compile the sources of the target `key`.
    pub fn make_object_rule(&self, registry: &TargetRegistry, key: usize) -> (r: String)
        requires
            registry.wf(),
            key < registry.nodes().len(),
        ensures
            r@ == object_rules_of(registry.nodes(), key as int, self.setting()),
    {
        let directory = self.output_directory(registry, key);
        let sources = self.print_sources(registry, key);
        let objects = derive_files(directory.as_str(), &sources, "o");
        let flags = join(&self.compose_compile_flags(registry, key), " ");
        let ghost wanted = object_rules(texts(objects@), texts(sources@), flags@);
        assert(texts(objects@).len() == texts(sources@).len());
        let mut rules: Vec<String> = Vec::new();
        let mut i: usize = 0;
        while i < sources.len()
            invariant
                i <= sources.len(),
                objects.len() == sources.len(),
                rules.len() == i,
                wanted == object_rules(texts(objects@), texts(sources@), flags@),
                forall|k: int| 0 <= k < i ==> (#[trigger] rules@[k])@ == wanted[k],
            decreases sources.len() - i,
        {
            proof {
                assert(texts(objects@)[i as int] == objects@[i as int]@);
                assert(texts(sources@)[i as int] == sources@[i as int]@);
            }
            let rule = String::from_str(objects[i].as_str()).concat(": \\\n\t").concat(sources[i].as_str()).concat(
                COMPILE_HEAD,
            ).concat(flags.as_str()).concat(COMPILE_TAIL);
            rules.push(rule);
            i += 1;
        }
        assert(texts(rules@) =~= wanted);
        join(&rules, "\n\n")
    }

    /// The lines that include the dependency files of the target `key`.
    pub fn print_header_includes(&self, registry: &TargetRegistry, key: usize) -> (r: String)
        requires
            key < registry.nodes().len(),
        ensures
            r@ == header_includes_of(registry.nodes(), key as int, self.setting()),
    {
        let directory = self.output_directory(registry, key);
        let sources = self.print_sources(registry, key);
        let files = derive_files(directory.as_str(), &sources, "d");
        let mut lines: Vec<String> = Vec::new();
        let mut i: usize = 0;
        while i < files.len()
            invariant
                i <= files.len(),
                lines.len() == i,
                forall|k: int| 0 <= k < i ==> (#[trigger] lines@[k])@ == sinclude_lines(texts(files@))[k],
            decreases files.len() - i,
        {
            assert(texts(files@)[i as int] == files@[i as int]@);
            lines.push(String::from_str("sinclude ").concat(files[i].as_str()).concat("\n"));
            i += 1;
        }
        assert(texts(lines@) =~= sinclude_lines(texts(files@)));
        let text = join(&lines, "");
        proof {
            reveal_strlit("");
            assert(""@ =~= Seq::<char>::empty());
        }
        text
    }

    /// The head of every rule file.
    pub fn generate_header(&self) -> (r: String)
        ensures
            r@ == header_text(self.setting().shared, self.setting().build_type),
    {
        let shared = self.shared_directory.as_str();
        let build_type = self.configuration.build_type.to_string();
        String::from_str(HEADER_HEAD).concat(shared).concat("/warnings.mk\ninclude ").concat(shared).concat(
            "/default_make.mk\ninclude ",
        ).concat(shared).concat("/").concat(build_type.as_str()).concat(".mk\n").concat(HEADER_PHONIES)
    }

    /// The lines that add the flags which the target `key` declares.
    pub fn generate_appending_flags(&self, registry: &TargetRegistry, key: usize) -> (r: String)
        requires
            key < registry.nodes().len(),
        ensures
            r@ == appending_flags_text(registry.nodes()[key as int]),
    {
        let node = match registry.get(key) {
            Some(node) => node,
            None => {
                return String::new();
            },
        };
        let mut data = String::new();
        if node.cxx_flags.len() > 0 {
            data = String::from_str("CXXFLAGS").concat(" += ").concat(join(&node.cxx_flags, " ").as_str()).concat("\n");
        }
        assert(data@ =~= appended_line("CXXFLAGS"@, texts(node.cxx_flags@)));
        if node.cpp_flags.len() > 0 {
            let line = String::from_str("CPPFLAGS").concat(" += ").concat(join(&node.cpp_flags, " ").as_str()).concat(
                "\n",
            );
            data.append(line.as_str());
        }
        assert(data@ =~= appending_flags_text(*node));
        data
    }

    /// What follows the main rule in the rule file of the target `key`.
    fn generate_rule_tail(&self, registry: &TargetRegistry, key: usize) -> (r: String)
        requires
            registry.wf(),
            key < registry.nodes().len(),
        ensures
            r@ == rule_tail(registry.nodes(), key as int, self.setting()),
    {
        let rules = self.make_object_rule(registry, key);
        let includes = self.print_header_includes(registry, key);
        rules.concat("\n\n").concat(includes.as_str()).concat("\n")
    }

    /// The rules of the executable target `key`.
    pub fn generate_rule_executable(&self, registry: &TargetRegistry, key: usize) -> (r: String)
        requires
            registry.wf(),
            key < registry.nodes().len(),
        ensures
            r@ == executable_rule(registry.nodes(), key as int, self.setting()),
    {
        let node = match registry.get(key) {
            Some(node) => node,
            None => {
                return String::new();
            },
        };
        let name = node.name.as_str();
        let prerequisites = self.print_prerequisites(registry, key);
        let flags = join(&self.compose_link_flags(registry, key), " ");
        let tail = self.generate_rule_tail(registry, key);
        String::from_str(EXECUTABLE_HEAD).concat(name).concat("\n").concat(name).concat(": ").concat(
            prerequisites.as_str(),
        ).concat(LINK_HEAD).concat(flags.as_str()).concat(LINK_TAIL).concat(tail.as_str())
    }

    /// The rules of the library target `key`.
    pub fn generate_rule_package(&self, registry: &TargetRegistry, key: usize) -> (r: String)
        requires
            registry.wf(),
            key < registry.nodes().len(),
        ensures
            r@ == package_rule(registry.nodes(), key as int, self.setting()),
    {
        let node = match registry.get(key) {
            Some(node) => node,
            None => {
                return String::new();
            },
        };
        let library = self.print_library_name(registry, key);
        let prerequisites = self.print_prerequisites(registry, key);
        let tail = self.generate_rule_tail(registry, key);
        let head = String::from_str(PACKAGE_HEAD).concat(library.as_str()).concat(": ").concat(prerequisites.as_str());
        match node.kind {
            TargetKind::DynamicLibrary => {
                let flags = join(&self.compose_link_flags(registry, key), " ");
                head.concat(SHARED_LINK_HEAD).concat(flags.as_str()).concat(LINK_TAIL).concat(tail.as_str())
            },
            _ => head.concat(ARCHIVE_RECIPE).concat(tail.as_str()),
        }
    }

    /// The rule file of the target `key`.
    pub fn generate_makefile(&self, registry: &TargetRegistry, key: usize) -> (r: TargetFile)
        requires
            registry.wf(),
            key < registry.nodes().len(),
        ensures
            r.key == key,
            r.name@ == registry.nodes()[key as int].name@,
            r.file.path@ == makefile_path(registry.nodes(), key as int, self.setting()),
            r.file.content@ == makefile_text(registry.nodes(), key as int, self.setting()),
    {
        let node = match registry.get(key) {
            Some(node) => node,
            None => {
                return TargetFile {
                    key,
                    name: String::new(),
                    file: GeneratedFile { path: String::new(), content: String::new() },
                };
            },
        };
        let directory = self.output_directory(registry, key);
        let mut content = self.generate_header();
        content.append(self.generate_appending_flags(registry, key).as_str());
        match node.kind {
            TargetKind::Executable => content.append(self.generate_rule_executable(registry, key).as_str()),
            _ => content.append(self.generate_rule_package(registry, key).as_str()),
        }
        TargetFile {
            key,
            name: node.name.clone(),
            file: GeneratedFile { path: join_path(directory.as_str(), "makefile"), content },
        }
    }
}

impl<'a> MmkGenerator<'a> {
    /// Walks the registry from the target `root` and generates the rule file of
    /// every target that the walk reaches and that was not generated before:
    /// each once, a target before the targets it requires. The targets are
    /// marked as generated.
    pub fn generate_makefiles(&self, registry: &mut TargetRegistry, root: usize) -> (r: Result<
        Vec<TargetFile>,
        GeneratorError,
    >)
        requires
            old(registry).wf(),
        ensures
            final(registry).wf(),
            final(registry).nodes() == old(registry).nodes(),
            final(registry).ranks() == old(registry).ranks(),
            match r {
                Err(e) => {
                    &&& root >= old(registry).nodes().len()
                    &&& e == GeneratorError::UnknownTarget(root)
                    &&& final(registry).statuses() == old(registry).statuses()
                },
                Ok(files) => {
                    let walk = traverse(old(registry).nodes(), old(registry).ranks(), old(registry).statuses(), root as int);
                    &&& root < old(registry).nodes().len()
                    &&& final(registry).statuses() == walk.1
                    &&& final(registry).statuses()[root as int] == GenerationStatus::Generated
                    &&& walk.0.no_duplicates()
                    &&& files.len() == walk.0.len()
                    &&& forall|i: int| 0 <= i < files.len() ==> {
                        let key = (#[trigger] files@[i]).key;
                        &&& key == walk.0[i]
                        &&& key < old(registry).nodes().len()
                        &&& old(registry).statuses()[key as int] == GenerationStatus::NotGenerated
                        &&& final(registry).statuses()[key as int] == GenerationStatus::Generated
                        &&& files@[i].name@ == old(registry).nodes()[key as int].name@
                        &&& files@[i].file.path@ == makefile_path(old(registry).nodes(), key as int, self.setting())
                        &&& files@[i].file.content@ == makefile_text(old(registry).nodes(), key as int, self.setting())
                    }
                },
            },
    {
        if root >= registry.len() {
            return Err(GeneratorError::UnknownTarget(root));
        }
        let order = registry.mark_generated(root);
        let mut files: Vec<TargetFile> = Vec::new();
        let mut i: usize = 0;
        while i < order.len()
            invariant
                i <= order.len(),
                registry.wf(),
                registry.nodes() == old(registry).nodes(),
                files.len() == i,
                forall|k: int| 0 <= k < order.len() ==> (#[trigger] order@[k]) < registry.nodes().len(),
                forall|k: int| 0 <= k < i ==> {
                    let key = (#[trigger] files@[k]).key;
                    &&& key == order@[k]
                    &&& files@[k].name@ == registry.nodes()[key as int].name@
                    &&& files@[k].file.path@ == makefile_path(registry.nodes(), key as int, self.setting())
                    &&& files@[k].file.content@ == makefile_text(registry.nodes(), key as int, self.setting())
                },
            decreases order.len() - i,
        {
            files.push(self.generate_makefile(registry, order[i]));
            i += 1;
        }
        Ok(files)
    }

    /// The error for a rule file that could not be written: it names the target.
    pub fn write_failure(file: &TargetFile, cause: &str) -> (r: GeneratorError)
        ensures
            r matches GeneratorError::WriteFailed { target, path, cause: c } && target@ == file.name@ && path@
                == file.file.path@ && c@ == cause@,
    {
        GeneratorError::WriteFailed {
            target: file.name.clone(),
            path: file.file.path.clone(),
            cause: String::from_str(cause),
        }
    }
}

/// The flags of compilation stand in a fixed order from left to right: the
/// warnings, then the flags of the build type, then the flags that the target
/// declares, then the include paths of its internal requirements, then the
/// flags of its external requirements.
pub proof fn lemma_flag_order(
    nodes: Seq<TargetNode>,
    u: int,
    vendor: Type,
    build_type: BuildType,
    sanitizer: Option<Sanitizer>,
)
    ensures
        ({
            let flags = compile_flags(nodes, u, vendor, build_type, sanitizer);
            let w = warning_flags(vendor).len() as int;
            let b = w + build_type_flags(build_type, sanitizer).len();
            let d = b + declared_flags(nodes[u]).len();
            let i = d + internal_includes(nodes, nodes[u].internal@).len();
            &&& flags.subrange(0, w) == warning_flags(vendor)
            &&& flags.subrange(w, b) == build_type_flags(build_type, sanitizer)
            &&& flags.subrange(b, d) == declared_flags(nodes[u])
            &&& flags.subrange(d, i) == internal_includes(nodes, nodes[u].internal@)
            &&& flags.subrange(i, flags.len() as int) == external_flags(nodes[u].external@)
        }),
{
    let flags = compile_flags(nodes, u, vendor, build_type, sanitizer);
    let w = warning_flags(vendor).len() as int;
    let b = w + build_type_flags(build_type, sanitizer).len();
    let d = b + declared_flags(nodes[u]).len();
    let i = d + internal_includes(nodes, nodes[u].internal@).len();
    assert(flags.subrange(0, w) =~= warning_flags(vendor));
    assert(flags.subrange(w, b) =~= build_type_flags(build_type, sanitizer));
    assert(flags.subrange(b, d) =~= declared_flags(nodes[u]));
    assert(flags.subrange(d, i) =~= internal_includes(nodes, nodes[u].internal@));
    assert(flags.subrange(i, flags.len() as int) =~= external_flags(nodes[u].external@));
}

/// The link flags begin with the compile flags and end with the mandatory run-time libraries.
pub proof fn lemma_link_flags_order(
    nodes: Seq<TargetNode>,
    u: int,
    vendor: Type,
    build_type: BuildType,
    sanitizer: Option<Sanitizer>,
    stdlib: StdLibCXX,
)
    ensures
        ({
            let flags = link_flags(nodes, u, vendor, build_type, sanitizer, stdlib);
            let c = compile_flags(nodes, u, vendor, build_type, sanitizer).len() as int;
            let m = mandatory_libraries(stdlib).len() as int;
            &&& flags.subrange(0, c) == compile_flags(nodes, u, vendor, build_type, sanitizer)
            &&& flags.subrange(flags.len() - m, flags.len() as int) == mandatory_libraries(stdlib)
        }),
{
    let flags = link_flags(nodes, u, vendor, build_type, sanitizer, stdlib);
    let c = compile_flags(nodes, u, vendor, build_type, sanitizer).len() as int;
    let m = mandatory_libraries(stdlib).len() as int;
    assert(flags.subrange(0, c) =~= compile_flags(nodes, u, vendor, build_type, sanitizer));
    assert(flags.subrange(flags.len() - m, flags.len() as int) =~= mandatory_libraries(stdlib));
}

/// The output of a debug build and that of a release build of one target lie
/// in different directories, and so do their rule files.
pub proof fn lemma_build_types_apart(path: Seq<char>, output_root: Seq<char>)
    ensures
        output_directory(path, output_root, BuildType::Debug) != output_directory(path, output_root, BuildType::Release),
        joined(output_directory(path, output_root, BuildType::Debug), "makefile"@) != joined(
            output_directory(path, output_root, BuildType::Release),
            "makefile"@,
        ),
{
    reveal_strlit("debug");
    reveal_strlit("release");
    reveal_strlit("makefile");
    let base = joined(path, output_root);
    let debug = output_directory(path, output_root, BuildType::Debug);
    let release = output_directory(path, output_root, BuildType::Release);
    let d = "debug"@;
    let r = "release"@;
    assert(d.len() == 5 && r.len() == 7);
    assert(d[0] == 'd' && r[0] == 'r');
    assert(!has_prefix(d, seq!['/'])) by {
        if has_prefix(d, seq!['/']) {
            assert(d.subrange(0, 1)[0] == '/');
        }
    }
    assert(!has_prefix(r, seq!['/'])) by {
        if has_prefix(r, seq!['/']) {
            assert(r.subrange(0, 1)[0] == '/');
        }
    }
    assert(debug.len() + 2 == release.len());
    assert(debug.len() >= 5);
    assert(debug.last() == 'g') by {
        assert(d[4] == 'g');
    }
    assert(release.last() == 'e') by {
        assert(r[6] == 'e');
    }
    let m = "makefile"@;
    assert(m.len() == 8 && m[0] == 'm');
    assert(!has_prefix(m, seq!['/'])) by {
        if has_prefix(m, seq!['/']) {
            assert(m.subrange(0, 1)[0] == '/');
        }
    }
    assert(joined(debug, m).len() + 2 == joined(release, m).len());
}

/// A debug build is compiled without optimisation and with debugger data, a
/// release build with full optimisation and without assertions.
pub proof fn lemma_build_type_flags(sanitizer: Option<Sanitizer>)
    ensures
        build_type_flags(BuildType::Debug, sanitizer).subrange(0, 2) == seq!["-g"@, "-O0"@],
        build_type_flags(BuildType::Release, sanitizer) == seq!["-O3"@, "-DNDEBUG"@],
        build_type_flags(BuildType::Debug, Some(Sanitizer::Thread)) == seq![
            "-g"@,
            "-O0"@,
            "-gdwarf"@,
            "-fsanitize=thread"@,
            "-fPIE"@,
            "-pie"@,
        ],
        build_type_flags(BuildType::Debug, None) == seq!["-g"@, "-O0"@, "-gdwarf"@],
{
    assert(build_type_flags(BuildType::Debug, sanitizer).subrange(0, 2) =~= seq!["-g"@, "-O0"@]);
    assert(build_type_flags(BuildType::Debug, Some(Sanitizer::Thread)) =~= seq![
        "-g"@,
        "-O0"@,
        "-gdwarf"@,
        "-fsanitize=thread"@,
        "-fPIE"@,
        "-pie"@,
    ]);
    assert(build_type_flags(BuildType::Debug, None) =~= seq!["-g"@, "-O0"@, "-gdwarf"@]);
}

/// Two targets are described alike: they agree in all that a rule file is made of.
pub open spec fn same_description(a: TargetNode, b: TargetNode) -> bool {
    &&& a.name@ == b.name@
    &&& a.path@ == b.path@
    &&& a.include_directory@ == b.include_directory@
    &&& a.kind == b.kind
    &&& a.sources@ == b.sources@
    &&& texts(a.cxx_flags@) == texts(b.cxx_flags@)
    &&& texts(a.cpp_flags@) == texts(b.cpp_flags@)
    &&& texts(a.defines@) == texts(b.defines@)
    &&& a.internal@ == b.internal@
    &&& a.external@ == b.external@
}

/// Two lists hold targets that are described alike, with requirements that lead to targets of the lists.
pub open spec fn same_targets(a: Seq<TargetNode>, b: Seq<TargetNode>) -> bool {
    &&& a.len() == b.len()
    &&& forall|i: int| 0 <= i < a.len() ==> same_description(#[trigger] a[i], b[i])
    &&& forall|i: int, e: int| 0 <= i < a.len() && 0 <= e < a[i].internal.len() ==> (#[trigger] a[i].internal@[e]).key
        < a.len()
}

/// Targets that are described alike require the same libraries.
pub proof fn lemma_required_libraries_alike(
    a: Seq<TargetNode>,
    b: Seq<TargetNode>,
    internal: Seq<InternalRequirement>,
    output_root: Seq<char>,
    build_type: BuildType,
)
    requires
        same_targets(a, b),
        forall|e: int| 0 <= e < internal.len() ==> (#[trigger] internal[e]).key < a.len(),
    ensures
        required_libraries(a, internal, output_root, build_type) == required_libraries(b, internal, output_root, build_type),
    decreases internal.len(),
{
    if internal.len() > 0 {
        let before = internal.drop_last();
        assert forall|e: int| 0 <= e < before.len() implies (#[trigger] before[e]).key < a.len() by {
            assert(before[e] == internal[e]);
        }
        lemma_required_libraries_alike(a, b, before, output_root, build_type);
        let k = internal.last().key as int;
        assert(internal[internal.len() - 1].key < a.len());
        assert(same_description(a[k], b[k]));
    }
}

/// The rule file of a target goes by the descriptions alone: lists of targets
/// that are described alike give the same file at the same path.
pub proof fn lemma_makefile_is_determined(a: Seq<TargetNode>, b: Seq<TargetNode>, u: int, setting: Setting)
    requires
        same_targets(a, b),
        0 <= u < a.len(),
    ensures
        makefile_path(a, u, setting) == makefile_path(b, u, setting),
        makefile_text(a, u, setting) == makefile_text(b, u, setting),
{
    assert(same_description(a[u], b[u]));
    assert forall|e: int| 0 <= e < a[u].internal@.len() implies (#[trigger] a[u].internal@[e]).key < a.len() by {}
    lemma_required_libraries_alike(a, b, a[u].internal@, setting.output_root, setting.build_type);
    assert(internal_includes(a, a[u].internal@) =~= internal_includes(b, b[u].internal@)) by {
        assert forall|e: int| 0 <= e < a[u].internal@.len() implies internal_includes(a, a[u].internal@)[e]
            == internal_includes(b, b[u].internal@)[e] by {
            let k = a[u].internal@[e].key as int;
            assert(same_description(a[k], b[k]));
        }
    }
    assert(declared_flags(a[u]) == declared_flags(b[u]));
    assert(compile_flags(a, u, setting.vendor, setting.build_type, setting.sanitizer) == compile_flags(
        b,
        u,
        setting.vendor,
        setting.build_type,
        setting.sanitizer,
    ));
    assert(directory_of(a, u, setting) == directory_of(b, u, setting));
    assert(objects_of(a, u, setting) == objects_of(b, u, setting));
    assert(prerequisites_of(a, u, setting) == prerequisites_of(b, u, setting));
    assert(compile_line_of(a, u, setting) == compile_line_of(b, u, setting));
    assert(link_line_of(a, u, setting) == link_line_of(b, u, setting));
    assert(object_rules_of(a, u, setting) == object_rules_of(b, u, setting));
    assert(header_includes_of(a, u, setting) == header_includes_of(b, u, setting));
    assert(rule_tail(a, u, setting) == rule_tail(b, u, setting));
    assert(library_of(a, u, setting) == library_of(b, u, setting));
    assert(executable_rule(a, u, setting) == executable_rule(b, u, setting));
    assert(package_rule(a, u, setting) == package_rule(b, u, setting));
    assert(appending_flags_text(a[u]) == appending_flags_text(b[u]));
}

} // verus!
