use aikup::cli::Cli;
use aikup::cmd::clean;
use aikup::cmd::current::{current_action, CurrentAction};
use aikup::cmd::install::{
    asset_name, choose_release, find_asset, is_past_cut_off, is_switched_to, path_status, plan_install,
    plan_release, Args, InstallError, PathStatus, ReleaseChoice,
};
use aikup::cmd::Cmd;
use aikup::partial_config::{deserialize_version, PartialConfig};
use aikup::version::parse_version;

fn names(list: &[&str]) -> Vec<String> {
    list.iter().map(|s| s.to_string()).collect()
}

#[test]
fn latest_installs_and_switches() {
    let args = Args::latest();
    assert_eq!(args.release, None);
    assert!(!args.no_switch);
}

#[test]
fn asset_name_past_cut_off_uses_target_triples() {
    assert_eq!(
        asset_name("v1.0.28-alpha", true, "linux", "x86_64"),
        "aiken-x86_64-unknown-linux-gnu.tar.gz"
    );
    assert_eq!(
        asset_name("v1.1.0", true, "macos", "aarch64"),
        "aiken-aarch64-apple-darwin.tar.gz"
    );
    assert_eq!(
        asset_name("v1.1.0", true, "windows", "x86"),
        "aiken-x86_64-pc-windows-msvc.tar.gz"
    );
    assert_eq!(
        asset_name("v1.1.0", true, "freebsd", "riscv64"),
        "aiken-riscv64-freebsd.tar.gz"
    );
}

#[test]
fn asset_name_up_to_cut_off_uses_legacy_names() {
    assert_eq!(
        asset_name("v1.0.0-alpha", false, "macos", "x86_64"),
        "aiken_v1.0.0-alpha_darwin_amd64.tar.gz"
    );
    assert_eq!(
        asset_name("v1.0.20-alpha", false, "windows", "aarch64"),
        "aiken_v1.0.20-alpha_win32_arm64.tar.gz"
    );
    assert_eq!(
        asset_name("v0.9.0", false, "linux", "x86"),
        "aiken_v0.9.0_linux_amd64.tar.gz"
    );
    assert_eq!(
        asset_name("v0.9.0", false, "freebsd", "riscv64"),
        "aiken_v0.9.0_freebsd_riscv64.tar.gz"
    );
}

#[test]
fn cut_off_comparison() {
    assert_eq!(is_past_cut_off("v1.0.26-alpha").unwrap(), false);
    assert_eq!(is_past_cut_off("v1.0.25-alpha").unwrap(), false);
    assert_eq!(is_past_cut_off("v1.0.27-alpha").unwrap(), true);
    assert_eq!(is_past_cut_off("v1.0.26").unwrap(), true);
    assert_eq!(is_past_cut_off("v1.1.0").unwrap(), true);
    assert_eq!(is_past_cut_off("v0.9.99").unwrap(), false);
}

#[test]
fn cut_off_rejects_invalid_tags() {
    assert!(is_past_cut_off("latest").is_err());
    assert!(is_past_cut_off("v1.0").is_err());
}

#[test]
fn parse_version_reads_all_parts() {
    let v = parse_version("1.2.3-rc.1+build.5").unwrap();
    assert_eq!(v.major(), 1);
    assert_eq!(v.minor(), 2);
    assert_eq!(v.patch(), 3);
    assert_eq!(v.pre(), "rc.1");
    assert_eq!(v.build(), "build.5");
    assert_eq!(v.to_text(), "1.2.3-rc.1+build.5");
    let plain = parse_version("10.0.407").unwrap();
    assert_eq!(plain.pre(), "");
    assert_eq!(plain.build(), "");
    assert_eq!(plain.to_text(), "10.0.407");
    assert!(parse_version("1.0").is_err());
    assert!(parse_version("1.0.01").is_err());
}

#[test]
fn version_ordering() {
    let release = parse_version("1.0.0").unwrap();
    let pre = parse_version("1.0.0-alpha").unwrap();
    let next = parse_version("1.0.1-alpha").unwrap();
    assert!(release.is_greater_than(&pre));
    assert!(!pre.is_greater_than(&release));
    assert!(next.is_greater_than(&release));
    assert!(!release.is_greater_than(&release));
}

#[test]
fn configured_version_strips_v() {
    let v = deserialize_version("v1.5.0").unwrap();
    assert_eq!(v.to_text(), "1.5.0");
    let w = deserialize_version("1.0.29-alpha").unwrap();
    assert_eq!(w.to_text(), "1.0.29-alpha");
    assert!(deserialize_version("one").is_err());
    assert!(PartialConfig::from_compiler("x.y.z").is_err());
}

#[test]
fn detected_tag_round_trip() {
    let config = PartialConfig::from_compiler("v1.0.29-alpha").unwrap();
    let tag = config.release_tag();
    assert_eq!(tag, "v1.0.29-alpha");
    let again = deserialize_version(&tag).unwrap();
    assert_eq!(again.to_text(), config.compiler.to_text());
}

#[test]
fn compiler_version_loses_v_in_prerelease() {
    let config = PartialConfig::from_compiler("1.0.0-dev").unwrap();
    assert_eq!(config.compiler.to_text(), "1.0.0-de");
}

#[test]
fn requested_release_wins() {
    let config = Some(PartialConfig::from_compiler("v1.5.0").unwrap());
    assert_eq!(
        choose_release(&Some("v1.0.0-alpha".to_string()), &config),
        ReleaseChoice::Requested("v1.0.0-alpha".to_string())
    );
    assert_eq!(
        choose_release(&None, &config),
        ReleaseChoice::Detected("v1.5.0".to_string())
    );
    assert_eq!(choose_release(&None, &None), ReleaseChoice::Latest);
}

#[test]
fn find_asset_takes_first_match() {
    let list = names(&["a.tar.gz", "b.tar.gz", "a.tar.gz"]);
    assert_eq!(find_asset(&list, "a.tar.gz"), Some(0));
    assert_eq!(find_asset(&list, "b.tar.gz"), Some(1));
    assert_eq!(find_asset(&list, "c.tar.gz"), None);
    assert_eq!(find_asset(&Vec::new(), "a"), None);
}

#[test]
fn plan_past_cut_off() {
    let list = names(&[
        "aiken-aarch64-apple-darwin.tar.gz",
        "aiken-x86_64-unknown-linux-gnu.tar.gz",
    ]);
    let plan = plan_install("v1.1.0", &list, "linux", "x86_64").unwrap();
    assert!(plan.is_past_cut_off);
    assert_eq!(plan.asset_index, 1);
    assert_eq!(plan.asset_name, "aiken-x86_64-unknown-linux-gnu.tar.gz");
    assert_eq!(plan.binary_dir, Some("aiken-x86_64-unknown-linux-gnu".to_string()));
}

#[test]
fn plan_up_to_cut_off() {
    let list = names(&["aiken_v1.0.0-alpha_linux_amd64.tar.gz"]);
    let plan = plan_install("v1.0.0-alpha", &list, "linux", "x86_64").unwrap();
    assert!(!plan.is_past_cut_off);
    assert_eq!(plan.asset_index, 0);
    assert_eq!(plan.binary_dir, None);
}

#[test]
fn plan_without_matching_asset() {
    let list = names(&["aiken-x86_64-unknown-linux-gnu.tar.gz"]);
    match plan_install("v1.1.0", &list, "macos", "aarch64") {
        Err(InstallError::NoAsset(name)) => assert_eq!(name, "aiken-aarch64-apple-darwin.tar.gz"),
        _ => panic!("expected a missing asset"),
    }
}

#[test]
fn plan_with_invalid_tag() {
    let list = names(&["aiken-x86_64-unknown-linux-gnu.tar.gz"]);
    assert!(matches!(
        plan_install("nightly", &list, "linux", "x86_64"),
        Err(InstallError::InvalidVersion(_))
    ));
}

#[test]
fn binary_dir_names_target() {
    let list = names(&["aiken-aarch64-pc-windows-msvc.tar.gz"]);
    let plan = plan_release("v9.9.9", true, &list, "windows", "aarch64").unwrap();
    assert_eq!(plan.binary_dir, Some("aiken-aarch64-pc-windows-msvc".to_string()));
    let other = plan_release("whatever", true, &list, "windows", "aarch64").unwrap();
    assert_eq!(other.binary_dir, plan.binary_dir);
}

#[test]
fn binary_dir_strips_every_suffix() {
    let list = names(&["aiken-x.tar.gz-freebsd.tar.gz"]);
    let plan = plan_release("v2.0.0", true, &list, "freebsd", "x.tar.gz").unwrap();
    assert_eq!(plan.binary_dir, Some("aiken-x-freebsd".to_string()));
}

#[test]
fn path_status_cases() {
    assert_eq!(path_status(Some("/home/me/.aiken/bin/aiken")), PathStatus::Managed);
    assert_eq!(path_status(Some("/usr/local/bin/aiken")), PathStatus::Unmanaged);
    assert_eq!(path_status(Some("/home/me/.aiken/bi")), PathStatus::Unmanaged);
    assert_eq!(path_status(None), PathStatus::NotFound);
}

#[test]
fn clean_entry_actions() {
    let keep = clean::Args { keep_current: true };
    let all = clean::Args { keep_current: false };
    assert!(!keep.removes_link());
    assert!(all.removes_link());
    assert_eq!(keep.entry_action("v1.1.0", "v1.1.0", true, false), clean::EntryAction::Keep);
    assert_eq!(keep.entry_action("v1.0.0", "v1.1.0", true, false), clean::EntryAction::RemoveDir);
    assert_eq!(all.entry_action("v1.1.0", "v1.1.0", true, false), clean::EntryAction::RemoveDir);
    assert_eq!(all.entry_action("notes", "v1.1.0", false, true), clean::EntryAction::RemoveFile);
    assert_eq!(keep.entry_action("v1.1.0", "v1.1.0", false, true), clean::EntryAction::RemoveFile);
    assert_eq!(all.entry_action("link", "", false, false), clean::EntryAction::Keep);
}

#[test]
fn current_actions() {
    assert_eq!(
        current_action(Some((true, "v1.1.0".to_string()))),
        CurrentAction::Show("v1.1.0".to_string())
    );
    assert_eq!(current_action(Some((false, "v1.1.0".to_string()))), CurrentAction::InstallLatest);
    assert_eq!(current_action(Some((true, String::new()))), CurrentAction::InstallLatest);
    assert_eq!(current_action(None), CurrentAction::InstallLatest);
}

#[test]
fn cli_without_subcommand_installs_latest() {
    let cli = Cli { cmd: None };
    assert!(cli.shows_banner());
    match cli.command() {
        Cmd::Install(args) => {
            assert_eq!(args.release, None);
            assert!(!args.no_switch);
        }
        _ => panic!("expected install"),
    }
    let given = Cli { cmd: Some(Cmd::List(aikup::cmd::list::Args { installed: true })) };
    assert!(!given.shows_banner());
    assert!(matches!(given.command(), Cmd::List(aikup::cmd::list::Args { installed: true })));
}

#[test]
fn switched_to_ignores_surrounding_white_space() {
    assert!(is_switched_to("v1.1.0", "v1.1.0"));
    assert!(is_switched_to("v1.1.0\r\n", "v1.1.0"));
    assert!(is_switched_to(" \tv1.1.0 ", "v1.1.0"));
    assert!(is_switched_to("\u{3000}v1.1.0\u{2009}", "v1.1.0"));
    assert!(!is_switched_to("v1.1.0x", "v1.1.0"));
    assert!(!is_switched_to("v1. 1.0", "v1.1.0"));
    assert!(!is_switched_to("", "v1.1.0"));
    assert!(is_switched_to("  \n", ""));
}
