//! The high-level `Program` type and its two-phase construction: a builder
//! created from source strings, a build step whose result is polled, and
//! the built program's kernel queries.

pub mod information;

use vstd::prelude::*;
use crate::host::{
    Host, InfoTarget, eq_except_programs, eq_except_kernels, program_info_bytes, build_info_bytes,
    SEP_SEMICOLON,
};
use crate::information::{InformationResult, ask_info_bytes, query, lemma_text_decode};
use crate::bytes::is_ascii_bytes;
use crate::text::{split_text, split_to_strings, split_bytes};
use crate::codes::{
    CL_SUCCESS, CL_COMPILER_NOT_AVAILABLE, CL_BUILD_PROGRAM_FAILURE, CL_INVALID_BUILD_OPTIONS,
    CL_BUILD_IN_PROGRESS, CL_BUILD_ERROR, CL_PROGRAM_KERNEL_NAMES,
};
use crate::context::Context;
use crate::kernel::Kernel;
use vstd::string::StringSliceAdditionalSpecFns;
use crate::text::{bytes_of_text, str_to_bytes};

verus! {

/// High-level enum mapping to the native build-status values.
#[derive(Debug, Clone, Copy, PartialEq, Eq, Hash, Structural)]
pub enum BuildStatus {
    /// No build has been performed on the program.
    NotBuilt,
    /// The last build failed.
    Error,
    /// The last build succeeded.
    Success,
    /// A build is in progress.
    InProgress,
}

/// High-level enum mapping to the native binary-type values.
#[derive(Debug, Clone, Copy, PartialEq, Eq, Hash, Structural)]
pub enum BinaryType {
    /// No binary is associated with the program.
    NoBinary,
    /// The binary is a compiled object.
    CompiledObject,
    /// The binary is a library.
    Library,
    /// The binary is an executable.
    Executable,
}

/// `Program` is a reference-counted reference to a native program.
#[derive(Debug, PartialEq, Eq, Structural)]
pub struct Program {
    /// The raw native handle.
    pub program: u64,
}

/// A builder struct for `Program` which compiles native programs.
#[derive(Debug, PartialEq, Eq, Structural)]
pub struct Builder {
    /// The program being built.
    pub program: Program,
}

/// An error returned by `Builder::create_with_sources`.
#[derive(PartialEq, Eq, Copy, Clone, Debug, Structural)]
pub enum SourceError {
    /// No sources were provided.
    NoSources,
}

/// An error reported by a finished build.
#[derive(PartialEq, Eq, Clone, Debug)]
pub enum BuildError {
    /// One of the devices does not have an available compiler.
    CompilerNotAvailable,
    /// The options provided are invalid.
    InvalidBuildOptions,
    /// Build failed; the payload is the build log.
    BuildFailed(String),
}

/// A type containing the future result of a build, polled to completion.
pub struct FutureBuild {
    /// The pending outcome; taken when the build settles.
    pub program: Result<Program, BuildError>,
}

/// One step of polling a pending build.
#[derive(Debug)]
pub enum BuildPoll {
    /// The build is still in progress.
    NotReady,
    /// The build finished; the program is ready.
    Ready(Program),
    /// The build failed.
    Failed(BuildError),
}

impl Program {
    /// A program reference is backed by a live native record.
    pub open spec fn wf(&self, host: &Host) -> bool {
        &&& host.valid_program(self.program)
        &&& host.prog(self.program).refcount >= 1
    }

    /// Query an information of the program. `T` should be a marker type
    /// from the `information` module implementing `ProgramInformation`.
    pub fn get_info<T: information::ProgramInformation>(&self, host: &Host) -> (r: T::Result)
        requires
            host.wf(),
            self.wf(host),
            program_info_bytes(host.prog(self.program), T::spec_id()) is Some,
            <T::Result as InformationResult>::spec_decode(
                program_info_bytes(host.prog(self.program), T::spec_id())->Some_0,
            ) is Some,
        ensures
            <T::Result as InformationResult>::spec_decode(
                program_info_bytes(host.prog(self.program), T::spec_id())->Some_0,
            ) == Some(r.model()),
    {
        query::<T>(host, InfoTarget::Program(self.program))
    }

    /// Query a build information of the program. `T` should be a marker
    /// type from the `information` module implementing `BuildInformation`.
    pub fn get_build_info<T: information::BuildInformation>(&self, host: &Host) -> (r: T::Result)
        requires
            host.wf(),
            self.wf(host),
            build_info_bytes(host.prog(self.program), T::spec_id()) is Some,
            <T::Result as InformationResult>::spec_decode(
                build_info_bytes(host.prog(self.program), T::spec_id())->Some_0,
            ) is Some,
        ensures
            <T::Result as InformationResult>::spec_decode(
                build_info_bytes(host.prog(self.program), T::spec_id())->Some_0,
            ) == Some(r.model()),
    {
        query::<T>(host, InfoTarget::ProgramBuild(self.program))
    }

    /// Return the list of kernel names the built program contains.
    pub fn kernel_names(&self, host: &Host) -> (r: Vec<String>)
        requires
            host.wf(),
            self.wf(host),
        ensures
            r@.map_values(|s: String| s@) == split_text(
                host.prog(self.program).kernel_names@,
                SEP_SEMICOLON,
            ),
    {
        let text = fetch_kernel_names(host, self.program);
        split_to_strings(&text, SEP_SEMICOLON)
    }

    /// Create a kernel defined in the built program under `kernel_name`.
    ///
    /// The name must be seven-bit text and one of the program's kernel
    /// names; the native layer refuses anything else, and that refusal is
    /// a programming error of the caller, not a runtime condition.
    pub fn create_kernel(&self, kernel_name: &str, host: &mut Host) -> (r: Kernel)
        requires
            old(host).wf(),
            self.wf(old(host)),
            kernel_name.is_ascii(),
            split_bytes(old(host).prog(self.program).kernel_names@, SEP_SEMICOLON).contains(
                kernel_name.spec_bytes(),
            ),
            old(host).kernels@.len() < u64::MAX - 1,
        ensures
            final(host).wf(),
            self.wf(final(host)),
            r.wf(final(host)),
            eq_except_kernels(*old(host), *final(host)),
            final(host).kernels@.len() == old(host).kernels@.len() + 1,
            r.kernel == old(host).kernels@.len() + 1,
            final(host).kern(r.kernel).program == self.program,
            final(host).kern(r.kernel).refcount == 1,
    {
        let name = str_to_bytes(kernel_name);
        let (status, handle) = host.create_kernel(self.program, &name);
        if status != CL_SUCCESS {
            proof {
                assert(false);
            }
            unreached()
        } else {
            Kernel { kernel: handle }
        }
    }

    /// Duplicate the reference, incrementing the native count.
    pub fn duplicate(&self, host: &mut Host) -> (r: Program)
        requires
            old(host).wf(),
            self.wf(old(host)),
            old(host).prog(self.program).refcount < u32::MAX,
        ensures
            r.program == self.program,
            final(host).wf(),
            r.wf(final(host)),
            self.wf(final(host)),
            eq_except_programs(*old(host), *final(host)),
            final(host).programs@.len() == old(host).programs@.len(),
            final(host).prog(self.program).refcount == old(host).prog(self.program).refcount + 1,
            forall|j: int|
                0 <= j < old(host).programs@.len() && j != self.program - 1 ==> final(host).programs@[j] == old(host).programs@[j],
    {
        let _ = host.retain_program(self.program);
        Program { program: self.program }
    }

    /// Destroy the reference, decrementing the native count.
    pub fn destroy(self, host: &mut Host)
        requires
            old(host).wf(),
            self.wf(old(host)),
        ensures
            final(host).wf(),
            eq_except_programs(*old(host), *final(host)),
            final(host).programs@.len() == old(host).programs@.len(),
            final(host).prog(self.program).refcount == old(host).prog(self.program).refcount - 1,
            forall|j: int|
                0 <= j < old(host).programs@.len() && j != self.program - 1 ==> final(host).programs@[j] == old(host).programs@[j],
    {
        let _ = host.release_program(self.program);
    }
}

/// The flattened byte image of a list of source texts.
pub open spec fn concat_sources(ss: Seq<Seq<char>>, i: int) -> Seq<u8>
    decreases ss.len() - i,
{
    if i < 0 || i >= ss.len() {
        Seq::empty()
    } else {
        bytes_of_text(ss[i]) + concat_sources(ss, i + 1)
    }
}

impl Builder {
    /// Start creating a program from a list of source strings for a given
    /// context; the native layer receives their concatenation.
    ///
    /// Sources must be seven-bit, terminator-free text (the crate's
    /// C-string text model); wider text is excluded by precondition.
    pub fn create_with_sources(sources: &Vec<String>, context: &Context, host: &mut Host) -> (r:
        Result<Builder, SourceError>)
        requires
            old(host).wf(),
            context.wf(old(host)),
            forall|i: int|
                0 <= i < sources@.len() ==> crate::text::text_chars((#[trigger] sources@[i])@),
            old(host).programs@.len() < u64::MAX - 1,
        ensures
            final(host).wf(),
            context.wf(final(host)),
            sources@.len() == 0 ==> r == Err::<Builder, SourceError>(SourceError::NoSources)
                && *final(host) == *old(host),
            sources@.len() > 0 ==> {
                &&& r is Ok
                &&& r->Ok_0.program.wf(final(host))
                &&& r->Ok_0.program.program == old(host).programs@.len() + 1
                &&& eq_except_programs(*old(host), *final(host))
                &&& final(host).programs@.len() == old(host).programs@.len() + 1
                &&& final(host).prog(r->Ok_0.program.program).source@ == concat_sources(
                    sources@.map_values(|s: String| s@),
                    0,
                )
                &&& final(host).prog(r->Ok_0.program.program).context == context.context
                &&& final(host).prog(r->Ok_0.program.program).devices@ == old(host).ctx(
                    context.context,
                ).devices@
                &&& final(host).prog(r->Ok_0.program.program).refcount == 1
                &&& final(host).prog(r->Ok_0.program.program).build_status
                    == crate::codes::CL_BUILD_NONE
                &&& forall|j: int|
                    0 <= j < old(host).programs@.len() ==> final(host).programs@[j] == old(host).programs@[j]
            },
    {
        let n: usize = sources.len();
        if n == 0 {
            return Err(SourceError::NoSources);
        }
        let ghost views = sources@.map_values(|s: String| s@);
        let mut all: Vec<u8> = Vec::new();
        let mut i: usize = 0;
        while i < n
            invariant
                i <= n,
                n == sources@.len(),
                views == sources@.map_values(|s: String| s@),
                forall|k: int|
                    0 <= k < n ==> crate::text::text_chars((#[trigger] sources@[k])@),
                all@ + concat_sources(views, i as int) == concat_sources(views, 0),
                crate::bytes::is_text_bytes(all@),
            decreases n - i,
        {
            let piece = str_to_bytes(sources[i].as_str());
            proof {
                assert(piece@ == bytes_of_text(views[i as int]));
                crate::text::lemma_text_chars_bytes(views[i as int]);
                assert((all@ + piece@) + concat_sources(views, i + 1) =~= all@ + (piece@
                    + concat_sources(views, i + 1)));
            }
            append_bytes(&mut all, &piece);
            i = i + 1;
        }
        proof {
            assert(concat_sources(views, n as int) =~= Seq::<u8>::empty());
            assert(all@ =~= concat_sources(views, 0));
        }
        let (_status, handle) = host.create_program_with_source(context.underlying(), all);
        Ok(Builder { program: Program { program: handle } })
    }

    /// Build the program (compile and link) with the given options; the
    /// returned value carries the build's outcome and is polled to
    /// completion.
    ///
    /// The options string must be seven-bit, terminator-free text (the
    /// crate's C-string text model); wider text is excluded by
    /// precondition. The native layer accepts it only if every
    /// whitespace-separated token opens with a dash.
    pub fn build_with_options(self, options: &str, host: &mut Host) -> (r: FutureBuild)
        requires
            old(host).wf(),
            self.program.wf(old(host)),
            crate::text::str_is_text(options),
        ensures
            final(host).wf(),
            self.program.wf(final(host)),
            ({
                let st = old(host).build_status_code(self.program.program, options.spec_bytes());
                &&& (st == CL_INVALID_BUILD_OPTIONS ==> r.program == Err::<Program, BuildError>(
                    BuildError::InvalidBuildOptions,
                ) && *final(host) == *old(host))
                &&& (st == CL_COMPILER_NOT_AVAILABLE ==> r.program == Err::<Program, BuildError>(
                    BuildError::CompilerNotAvailable,
                ) && *final(host) == *old(host))
                &&& (st == CL_BUILD_PROGRAM_FAILURE ==> (r.program matches Err(
                    BuildError::BuildFailed(log),
                ) && log@ == crate::bytes::ascii_chars(old(host).failure_log@)) && final(host).prog(self.program.program).build_status == CL_BUILD_ERROR)
                &&& (st == CL_SUCCESS ==> r.program == Ok::<Program, BuildError>(self.program)
                    && final(host).prog(self.program.program).build_status
                    == crate::codes::CL_BUILD_SUCCESS && final(host).prog(
                    self.program.program,
                ).kernel_names@ == old(host).built_kernel_names@)
            }),
    {
        let opts = str_to_bytes(options);
        proof {
            assert(crate::bytes::is_text_bytes(opts@));
        }
        let err = host.build_program(self.program.program, opts);
        if err == CL_INVALID_BUILD_OPTIONS {
            // The native layer refuses a malformed options string before
            // attempting the build.
            FutureBuild { program: Err(BuildError::InvalidBuildOptions) }
        } else if err == CL_COMPILER_NOT_AVAILABLE {
            FutureBuild { program: Err(BuildError::CompilerNotAvailable) }
        } else if err == CL_BUILD_PROGRAM_FAILURE {
            let log = fetch_build_log(host, self.program.program);
            FutureBuild { program: Err(BuildError::BuildFailed(log)) }
        } else {
            FutureBuild { program: Ok(self.program) }
        }
    }

    /// Call `build_with_options` with an empty options string.
    pub fn build(self, host: &mut Host) -> (r: FutureBuild)
        requires
            old(host).wf(),
            self.program.wf(old(host)),
        ensures
            final(host).wf(),
            self.program.wf(final(host)),
            ({
                let st = old(host).build_status_code(self.program.program, Seq::<u8>::empty());
                &&& (st == CL_COMPILER_NOT_AVAILABLE ==> r.program == Err::<Program, BuildError>(
                    BuildError::CompilerNotAvailable,
                ) && *final(host) == *old(host))
                &&& (st == CL_BUILD_PROGRAM_FAILURE ==> (r.program matches Err(
                    BuildError::BuildFailed(log),
                ) && log@ == crate::bytes::ascii_chars(old(host).failure_log@)) && final(host).prog(self.program.program).build_status == CL_BUILD_ERROR)
                &&& (st == CL_SUCCESS ==> r.program == Ok::<Program, BuildError>(self.program)
                    && final(host).prog(self.program.program).build_status
                    == crate::codes::CL_BUILD_SUCCESS && final(host).prog(
                    self.program.program,
                ).kernel_names@ == old(host).built_kernel_names@)
            }),
    {
        proof {
            reveal_strlit("");
            assert(""@ =~= Seq::<char>::empty());
            assert("".spec_bytes() =~= Seq::<u8>::empty());
            assert(crate::text::str_is_text(""));
        }
        self.build_with_options("", host)
    }
}

impl FutureBuild {
    /// One polling step of the pending build: consult the build-status
    /// marker; report not-ready while the build runs, surface a failure
    /// with its log, and hand the program out once it is ready. A settled
    /// future yields its outcome and becomes spent.
    pub fn poll(&mut self, host: &Host) -> (r: BuildPoll)
        requires
            host.wf(),
            old(self).program matches Ok(p) ==> p.wf(host),
        ensures
            match old(self).program {
                Ok(p) => {
                    let st = host.prog(p.program).build_status;
                    &&& (st == CL_BUILD_IN_PROGRESS ==> r is NotReady && final(self).program
                        == old(self).program)
                    &&& (st == CL_BUILD_ERROR ==> (r matches BuildPoll::Failed(
                        BuildError::BuildFailed(log),
                    ) && log@ == crate::bytes::ascii_chars(host.prog(p.program).build_log@))
                        && final(self).program == old(self).program)
                    &&& (st != CL_BUILD_IN_PROGRESS && st != CL_BUILD_ERROR ==> r
                        == BuildPoll::Ready(p) && final(self).program == Err::<
                        Program,
                        BuildError,
                    >(BuildError::CompilerNotAvailable))
                },
                Err(e) => r == BuildPoll::Failed(e) && final(self).program == Err::<
                    Program,
                    BuildError,
                >(BuildError::CompilerNotAvailable),
            },
    {
        if let Ok(program) = &self.program {
            let handle = program.program;
            let st = query_build_status(host, handle);
            if st == CL_BUILD_IN_PROGRESS {
                return BuildPoll::NotReady;
            }
            if st == CL_BUILD_ERROR {
                let log = fetch_build_log(host, handle);
                return BuildPoll::Failed(BuildError::BuildFailed(log));
            }
        }
        let mut taken: Result<Program, BuildError> = Err(BuildError::CompilerNotAvailable);
        core::mem::swap(&mut self.program, &mut taken);
        match taken {
            Ok(program) => BuildPoll::Ready(program),
            Err(e) => BuildPoll::Failed(e),
        }
    }
}

/// Query the raw build-status word of a program.
fn query_build_status(host: &Host, program: u64) -> (r: i32)
    requires
        host.wf(),
        host.valid_program(program),
    ensures
        r == host.prog(program).build_status,
{
    proof {
        crate::information::lemma_u32_decode(host.prog(program).build_status as u32);
        let st = host.prog(program).build_status;
        assert(st as u32 as i32 == st) by (bit_vector);
    }
    let fetched = ask_info_bytes(
        host,
        InfoTarget::ProgramBuild(program),
        crate::codes::CL_PROGRAM_BUILD_STATUS,
    );
    match fetched {
        Ok(b) => {
            match <u32 as InformationResult>::decode(b) {
                Some(v) => v as i32,
                None => {
                    proof {
                        assert(false);
                    }
                    unreached()
                },
            }
        },
        Err(_) => {
            proof {
                assert(false);
            }
            unreached()
        },
    }
}

/// Fetch the build log of a program as an owned string.
fn fetch_build_log(host: &Host, program: u64) -> (r: String)
    requires
        host.wf(),
        host.valid_program(program),
    ensures
        r@ == crate::bytes::ascii_chars(host.prog(program).build_log@),
{
    proof {
        lemma_text_decode(host.prog(program).build_log@);
    }
    let fetched = ask_info_bytes(
        host,
        InfoTarget::ProgramBuild(program),
        crate::codes::CL_PROGRAM_BUILD_LOG,
    );
    match fetched {
        Ok(b) => {
            match <String as InformationResult>::decode(b) {
                Some(s) => s,
                None => {
                    proof {
                        assert(false);
                    }
                    unreached()
                },
            }
        },
        Err(_) => {
            proof {
                assert(false);
            }
            unreached()
        },
    }
}

/// Fetch the kernel-name list of a program as bytes, terminator stripped.
fn fetch_kernel_names(host: &Host, program: u64) -> (r: Vec<u8>)
    requires
        host.wf(),
        host.valid_program(program),
    ensures
        r@ == host.prog(program).kernel_names@,
        is_ascii_bytes(r@),
{
    let fetched = ask_info_bytes(host, InfoTarget::Program(program), CL_PROGRAM_KERNEL_NAMES);
    match fetched {
        Ok(b) => {
            let mut b = b;
            let ghost full = b@;
            let _terminator = b.pop();
            proof {
                assert(b@ =~= full.take(full.len() - 1));
                assert(full =~= host.prog(program).kernel_names@ + seq![0u8]);
                assert(b@ =~= host.prog(program).kernel_names@);
            }
            b
        },
        Err(_) => {
            proof {
                assert(false);
            }
            unreached()
        },
    }
}

/// Append one byte buffer to another.
fn append_bytes(out: &mut Vec<u8>, piece: &Vec<u8>)
    ensures
        final(out)@ == old(out)@ + piece@,
{
    let m: usize = piece.len();
    let mut k: usize = 0;
    while k < m
        invariant
            k <= m,
            m == piece@.len(),
            out@ == old(out)@ + piece@.take(k as int),
        decreases m - k,
    {
        out.push(piece[k]);
        proof {
            assert(old(out)@ + piece@.take(k + 1) =~= (old(out)@ + piece@.take(k as int)).push(
                piece@[k as int],
            ));
        }
        k = k + 1;
    }
    proof {
        assert(out@ =~= old(out)@ + piece@);
    }
}

} // verus!
