use tgoskits::user_ebpf::{
    build_plan, musl_target_for_arch, resolve_program_list, ArgsUserEbpfBuild, UserEbpfError,
    PROGRAMS,
};

#[test]
fn programs_list_matches_user_ebpf_dirs() {
    let expected = [
        "async_test",
        "kret",
        "rawtp",
        "mytrace",
        "syscall_ebpf",
        "upb",
        "upb2",
    ];
    assert_eq!(PROGRAMS, expected);
}

#[test]
fn arch_mapping_known() {
    assert_eq!(
        musl_target_for_arch("x86_64").unwrap(),
        "x86_64-unknown-linux-musl"
    );
    assert_eq!(
        musl_target_for_arch("aarch64").unwrap(),
        "aarch64-unknown-linux-musl"
    );
    assert_eq!(
        musl_target_for_arch("riscv64").unwrap(),
        "riscv64gc-unknown-linux-musl"
    );
    assert_eq!(
        musl_target_for_arch("riscv64gc").unwrap(),
        "riscv64gc-unknown-linux-musl"
    );
    assert_eq!(
        musl_target_for_arch("loongarch64").unwrap(),
        "loongarch64-unknown-linux-musl"
    );
    assert!(musl_target_for_arch("ppc64").is_err());
}

#[test]
fn resolve_requires_program_or_all() {
    let args = ArgsUserEbpfBuild {
        program: None,
        all: false,
        arch: "x86_64".to_string(),
    };
    assert!(resolve_program_list(&args).is_err());
}

#[test]
fn resolve_rejects_unknown_program() {
    let args = ArgsUserEbpfBuild {
        program: Some("not-a-program".to_string()),
        all: false,
        arch: "x86_64".to_string(),
    };
    assert!(resolve_program_list(&args).is_err());
}

#[test]
fn resolve_all_returns_all_programs() {
    let args = ArgsUserEbpfBuild {
        program: None,
        all: true,
        arch: "x86_64".to_string(),
    };
    let list = resolve_program_list(&args).unwrap();
    assert_eq!(list.len(), PROGRAMS.len());
}

#[test]
fn resolve_single_known_program() {
    let args = ArgsUserEbpfBuild {
        program: Some("kret".to_string()),
        all: false,
        arch: "x86_64".to_string(),
    };
    assert_eq!(resolve_program_list(&args).unwrap(), vec!["kret".to_string()]);
}

#[test]
fn resolve_all_wins_over_program() {
    let args = ArgsUserEbpfBuild {
        program: Some("not-a-program".to_string()),
        all: true,
        arch: "x86_64".to_string(),
    };
    assert_eq!(resolve_program_list(&args).unwrap(), PROGRAMS.to_vec());
}

#[test]
fn error_messages_name_the_input() {
    match musl_target_for_arch("ppc64") {
        Err(e) => assert_eq!(
            e.message(),
            "unsupported arch `ppc64`; supported: x86_64, aarch64, riscv64, loongarch64"
        ),
        Ok(_) => panic!("ppc64 has no musl target"),
    }
    let args = ArgsUserEbpfBuild {
        program: Some("nope".to_string()),
        all: false,
        arch: "x86_64".to_string(),
    };
    match resolve_program_list(&args) {
        Err(e) => assert_eq!(
            e.message(),
            "unknown program `nope`; expected one of: async_test, kret, rawtp, mytrace, \
             syscall_ebpf, upb, upb2"
        ),
        Ok(_) => panic!("unknown program accepted"),
    }
    assert_eq!(
        UserEbpfError::NoProgramSelected.message(),
        "either `--program <NAME>` or `--all` must be provided"
    );
}

#[test]
fn build_plan_checks_arch_first() {
    let args = ArgsUserEbpfBuild {
        program: None,
        all: false,
        arch: "ppc64".to_string(),
    };
    assert!(matches!(
        build_plan(&args),
        Err(UserEbpfError::UnsupportedArch(_))
    ));
    let args = ArgsUserEbpfBuild {
        program: Some("upb2".to_string()),
        all: false,
        arch: "riscv64gc".to_string(),
    };
    let plan = build_plan(&args).unwrap();
    assert_eq!(plan.target, "riscv64gc-unknown-linux-musl");
    assert_eq!(plan.programs, vec!["upb2".to_string()]);
}
