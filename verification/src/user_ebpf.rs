//! Decisions of the `user-ebpf` build driver: which eBPF user programs to
//! build and for which musl target.

use vstd::prelude::*;

use crate::text::{push_str, str_eq, string_views};

verus! {

/// Every eBPF user program, in build order: the quickest to build first.
pub const PROGRAMS: [&'static str; 7] = [
    "async_test",
    "kret",
    "rawtp",
    "mytrace",
    "syscall_ebpf",
    "upb",
    "upb2",
];

/// The program names, in build order.
pub open spec fn program_names() -> Seq<Seq<char>> {
    seq![
        "async_test"@,
        "kret"@,
        "rawtp"@,
        "mytrace"@,
        "syscall_ebpf"@,
        "upb"@,
        "upb2"@,
    ]
}

/// The musl target for an architecture name, if it is a supported one.
pub open spec fn musl_target(arch: Seq<char>) -> Option<Seq<char>> {
    if arch == "x86_64"@ {
        Some("x86_64-unknown-linux-musl"@)
    } else if arch == "aarch64"@ {
        Some("aarch64-unknown-linux-musl"@)
    } else if arch == "riscv64"@ || arch == "riscv64gc"@ {
        Some("riscv64gc-unknown-linux-musl"@)
    } else if arch == "loongarch64"@ {
        Some("loongarch64-unknown-linux-musl"@)
    } else {
        None
    }
}

/// The arguments of `user-ebpf`.
#[derive(Debug)]
pub struct ArgsUserEbpf {
    pub command: UserEbpfCommand,
}

/// The subcommands of `user-ebpf`.
#[derive(Debug)]
pub enum UserEbpfCommand {
    /// Cross-compile eBPF user programs against a musl target.
    Build(ArgsUserEbpfBuild),
    /// List the known programs.
    List,
}

/// The arguments of `user-ebpf build`.
#[derive(Debug)]
pub struct ArgsUserEbpfBuild {
    /// Build exactly this program.
    pub program: Option<String>,
    /// Build every program.
    pub all: bool,
    /// Target architecture (`x86_64` / `aarch64` / `riscv64` / `loongarch64`).
    pub arch: String,
}

/// Why `user-ebpf` refuses a request.
#[derive(Debug)]
pub enum UserEbpfError {
    /// The named program is not one of the known programs.
    UnknownProgram(String),
    /// Neither a program nor `--all` was given.
    NoProgramSelected,
    /// The architecture has no musl target here.
    UnsupportedArch(String),
}

/// The text shown for a refusal.
pub open spec fn error_message(e: UserEbpfError) -> Seq<char> {
    match e {
        UserEbpfError::UnknownProgram(name) => "unknown program `"@ + name@
            + "`; expected one of: async_test, kret, rawtp, mytrace, syscall_ebpf, upb, upb2"@,
        UserEbpfError::NoProgramSelected => "either `--program <NAME>` or `--all` must be provided"@,
        UserEbpfError::UnsupportedArch(arch) => "unsupported arch `"@ + arch@
            + "`; supported: x86_64, aarch64, riscv64, loongarch64"@,
    }
}

impl UserEbpfError {
    /// The text shown for this refusal.
    pub fn message(&self) -> (m: String)
        ensures
            m@ == error_message(*self),
    {
        let mut m = String::new();
        match self {
            UserEbpfError::UnknownProgram(name) => {
                push_str(&mut m, "unknown program `");
                push_str(&mut m, name.as_str());
                push_str(
                    &mut m,
                    "`; expected one of: async_test, kret, rawtp, mytrace, syscall_ebpf, upb, upb2",
                );
            },
            UserEbpfError::NoProgramSelected => {
                push_str(&mut m, "either `--program <NAME>` or `--all` must be provided");
            },
            UserEbpfError::UnsupportedArch(arch) => {
                push_str(&mut m, "unsupported arch `");
                push_str(&mut m, arch.as_str());
                push_str(&mut m, "`; supported: x86_64, aarch64, riscv64, loongarch64");
            },
        }
        m
    }
}

/// The musl target to build for on `arch`; `riscv64gc` is an alias of
/// `riscv64`; any other architecture is refused.
pub fn musl_target_for_arch(arch: &str) -> (r: Result<&'static str, UserEbpfError>)
    ensures
        match musl_target(arch@) {
            Some(t) => (r matches Ok(s) && s@ == t),
            None => (r matches Err(UserEbpfError::UnsupportedArch(a)) && a@ == arch@),
        },
{
    if str_eq(arch, "x86_64") {
        Ok("x86_64-unknown-linux-musl")
    } else if str_eq(arch, "aarch64") {
        Ok("aarch64-unknown-linux-musl")
    } else if str_eq(arch, "riscv64") || str_eq(arch, "riscv64gc") {
        Ok("riscv64gc-unknown-linux-musl")
    } else if str_eq(arch, "loongarch64") {
        Ok("loongarch64-unknown-linux-musl")
    } else {
        Err(UserEbpfError::UnsupportedArch(arch.to_owned()))
    }
}

/// Whether `name` is one of the known programs.
pub fn is_known_program(name: &str) -> (b: bool)
    ensures
        b == program_names().contains(name@),
{
    let mut i: usize = 0;
    while i < 7
        invariant
            i <= 7,
            forall|k: int| 0 <= k < i ==> program_names()[k] != name@,
        decreases 7 - i,
    {
        let p = PROGRAMS[i];
        assert(p@ == program_names()[i as int]);
        if str_eq(p, name) {
            return true;
        }
        i = i + 1;
    }
    false
}

/// The programs that a build request names: every program with `--all`
/// (which wins over `--program`), else the one given with `--program` if it
/// is known; a request that names neither, or an unknown program, is refused.
pub fn resolve_program_list(args: &ArgsUserEbpfBuild) -> (r: Result<Vec<String>, UserEbpfError>)
    ensures
        args.all ==> (r matches Ok(v) && string_views(v@) == program_names()),
        !args.all && args.program is None ==> r matches Err(UserEbpfError::NoProgramSelected),
        !args.all && args.program is Some ==> {
            let name = args.program->0@;
            if program_names().contains(name) {
                (r matches Ok(v) && string_views(v@) == seq![name])
            } else {
                (r matches Err(UserEbpfError::UnknownProgram(n)) && n@ == name)
            }
        },
{
    if args.all {
        let mut v: Vec<String> = Vec::new();
        let mut i: usize = 0;
        while i < 7
            invariant
                i <= 7,
                string_views(v@) == program_names().take(i as int),
            decreases 7 - i,
        {
            let p = PROGRAMS[i];
            assert(p@ == program_names()[i as int]);
            let owned = p.to_owned();
            let ghost before = v@;
            v.push(owned);
            proof {
                assert(v@ == before.push(owned));
                assert(string_views(v@) =~= string_views(before).push(owned@));
                assert(program_names().take(i + 1) =~= program_names().take(i as int).push(
                    program_names()[i as int],
                ));
            }
            i = i + 1;
            proof {
                assert(string_views(v@) =~= program_names().take(i as int));
            }
        }
        proof {
            assert(program_names().take(7) =~= program_names());
        }
        return Ok(v);
    }
    match &args.program {
        Some(name) => {
            if !is_known_program(name.as_str()) {
                return Err(UserEbpfError::UnknownProgram(name.clone()));
            }
            let mut v: Vec<String> = Vec::new();
            v.push(name.clone());
            proof {
                assert(string_views(v@) =~= seq![name@]);
            }
            Ok(v)
        },
        None => Err(UserEbpfError::NoProgramSelected),
    }
}

/// What a build request amounts to: the musl target and the programs, in
/// build order.
pub struct BuildPlan {
    pub target: &'static str,
    pub programs: Vec<String>,
}

/// Decides a build request: the architecture is checked first, then the
/// program selection, as `resolve_program_list` makes it; each program is
/// then built from its own directory.
pub fn build_plan(args: &ArgsUserEbpfBuild) -> (r: Result<BuildPlan, UserEbpfError>)
    ensures
        musl_target(args.arch@) is None ==> (r matches Err(UserEbpfError::UnsupportedArch(a))
            && a@ == args.arch@),
        musl_target(args.arch@) is Some && args.all ==> (r matches Ok(plan) && plan.target@
            == musl_target(args.arch@)->0 && string_views(plan.programs@) == program_names()),
        musl_target(args.arch@) is Some && !args.all && args.program is None ==> (r matches Err(
            UserEbpfError::NoProgramSelected,
        )),
        musl_target(args.arch@) is Some && !args.all && args.program is Some ==> {
            let name = args.program->0@;
            if program_names().contains(name) {
                (r matches Ok(plan) && plan.target@ == musl_target(args.arch@)->0 && string_views(
                    plan.programs@,
                ) == seq![name])
            } else {
                (r matches Err(UserEbpfError::UnknownProgram(n)) && n@ == name)
            }
        },
{
    let target = match musl_target_for_arch(args.arch.as_str()) {
        Ok(t) => t,
        Err(e) => {
            return Err(e);
        },
    };
    let programs = match resolve_program_list(args) {
        Ok(p) => p,
        Err(e) => {
            return Err(e);
        },
    };
    Ok(BuildPlan { target, programs })
}


} // verus!
