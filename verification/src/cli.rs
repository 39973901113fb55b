//! Command-line options of the tablet-mode daemon.

use vstd::prelude::*;
use crate::text::str_eq;

verus! {

/// The parsed options. Device paths are kept as text.
pub struct Cli {
    pub dry_run: bool,
    pub revert_only: bool,
    pub acpi_path: String,
    pub display_accel: String,
    pub base_accel: String,
}

/// The options as plain values.
pub struct CliView {
    pub dry_run: bool,
    pub revert_only: bool,
    pub acpi_path: Seq<char>,
    pub display_accel: Seq<char>,
    pub base_accel: Seq<char>,
}

impl View for Cli {
    type V = CliView;

    open spec fn view(&self) -> CliView {
        CliView {
            dry_run: self.dry_run,
            revert_only: self.revert_only,
            acpi_path: self.acpi_path@,
            display_accel: self.display_accel@,
            base_accel: self.base_accel@,
        }
    }
}

/// The `LTSM` ACPI method of this unit.
pub const DEFAULT_ACPI_PATH: &'static str = "\\_SB.PC00.I2C1.ACMG.LTSM";

/// The display accelerometer's IIO device.
pub const DEFAULT_DISPLAY_ACCEL: &'static str = "/sys/bus/iio/devices/iio:device0";

/// The base accelerometer's IIO device.
pub const DEFAULT_BASE_ACCEL: &'static str = "/sys/bus/iio/devices/iio:device1";

/// The options when no flag is given.
pub open spec fn default_options() -> CliView {
    CliView {
        dry_run: false,
        revert_only: false,
        acpi_path: DEFAULT_ACPI_PATH@,
        display_accel: DEFAULT_DISPLAY_ACCEL@,
        base_accel: DEFAULT_BASE_ACCEL@,
    }
}

/// Reads the flags from position `i` on, into the options gathered so
/// far: `--dry-run` and `--revert-only` set their switch; `--acpi-path`,
/// `--display-accel` and `--base-accel` take the next argument as their
/// value (the last one given wins); anything else is an unknown flag. At
/// the end, `--dry-run` together with `--revert-only` is refused.
pub open spec fn parse_from(args: Seq<Seq<char>>, i: int, o: CliView) -> Result<
    CliView,
    Seq<char>,
>
    decreases args.len() - i,
{
    if i < 0 || i >= args.len() {
        if o.dry_run && o.revert_only {
            Err("--dry-run and --revert-only are mutually exclusive"@)
        } else {
            Ok(o)
        }
    } else {
        let a = args[i];
        if a == "--dry-run"@ {
            parse_from(args, i + 1, CliView { dry_run: true, ..o })
        } else if a == "--revert-only"@ {
            parse_from(args, i + 1, CliView { revert_only: true, ..o })
        } else if a == "--acpi-path"@ {
            if i + 1 < args.len() {
                parse_from(args, i + 2, CliView { acpi_path: args[i + 1], ..o })
            } else {
                Err("--acpi-path requires a value"@)
            }
        } else if a == "--display-accel"@ {
            if i + 1 < args.len() {
                parse_from(args, i + 2, CliView { display_accel: args[i + 1], ..o })
            } else {
                Err("--display-accel requires a value"@)
            }
        } else if a == "--base-accel"@ {
            if i + 1 < args.len() {
                parse_from(args, i + 2, CliView { base_accel: args[i + 1], ..o })
            } else {
                Err("--base-accel requires a value"@)
            }
        } else {
            Err("unknown flag: "@ + a)
        }
    }
}

/// The arguments as plain character sequences.
pub open spec fn arg_views(args: Seq<String>) -> Seq<Seq<char>> {
    args.map_values(|s: String| s@)
}

/// Parses the daemon's arguments (without the program name).
pub fn parse(args: &[String]) -> (r: Result<Cli, String>)
    ensures
        match parse_from(arg_views(args@), 0, default_options()) {
            Ok(o) => r matches Ok(cli) && cli@ == o,
            Err(msg) => r matches Err(m) && m@ == msg,
        },
{
    let ghost views = arg_views(args@);
    let mut dry_run = false;
    let mut revert_only = false;
    let mut acpi_path = String::from_str(DEFAULT_ACPI_PATH);
    let mut display_accel = String::from_str(DEFAULT_DISPLAY_ACCEL);
    let mut base_accel = String::from_str(DEFAULT_BASE_ACCEL);
    let mut i: usize = 0;
    while i < args.len()
        invariant
            i <= args@.len(),
            views == arg_views(args@),
            parse_from(views, 0, default_options()) == parse_from(
                views,
                i as int,
                CliView {
                    dry_run,
                    revert_only,
                    acpi_path: acpi_path@,
                    display_accel: display_accel@,
                    base_accel: base_accel@,
                },
            ),
        decreases args@.len() - i,
    {
        let a = args[i].as_str();
        assert(views[i as int] == a@);
        if str_eq(a, "--dry-run") {
            dry_run = true;
        } else if str_eq(a, "--revert-only") {
            revert_only = true;
        } else if str_eq(a, "--acpi-path") {
            i = i + 1;
            if i >= args.len() {
                return Err(String::from_str("--acpi-path requires a value"));
            }
            assert(views[i as int] == args@[i as int]@);
            acpi_path = args[i].clone();
        } else if str_eq(a, "--display-accel") {
            i = i + 1;
            if i >= args.len() {
                return Err(String::from_str("--display-accel requires a value"));
            }
            assert(views[i as int] == args@[i as int]@);
            display_accel = args[i].clone();
        } else if str_eq(a, "--base-accel") {
            i = i + 1;
            if i >= args.len() {
                return Err(String::from_str("--base-accel requires a value"));
            }
            assert(views[i as int] == args@[i as int]@);
            base_accel = args[i].clone();
        } else {
            return Err(String::from_str("unknown flag: ").concat(a));
        }
        i = i + 1;
    }
    if dry_run && revert_only {
        return Err(String::from_str("--dry-run and --revert-only are mutually exclusive"));
    }
    Ok(Cli { dry_run, revert_only, acpi_path, display_accel, base_accel })
}

/// `--dry-run` and `--revert-only` never both hold in parsed options,
/// whatever the arguments.
pub proof fn lemma_parsed_modes_exclusive(args: Seq<Seq<char>>, i: int, o: CliView)
    ensures
        parse_from(args, i, o) matches Ok(p) ==> !(p.dry_run && p.revert_only),
    decreases args.len() - i,
{
    if 0 <= i < args.len() {
        let a = args[i];
        if a == "--dry-run"@ {
            lemma_parsed_modes_exclusive(args, i + 1, CliView { dry_run: true, ..o });
        } else if a == "--revert-only"@ {
            lemma_parsed_modes_exclusive(args, i + 1, CliView { revert_only: true, ..o });
        } else if a == "--acpi-path"@ {
            if i + 1 < args.len() {
                lemma_parsed_modes_exclusive(args, i + 2, CliView { acpi_path: args[i + 1], ..o });
            }
        } else if a == "--display-accel"@ {
            if i + 1 < args.len() {
                lemma_parsed_modes_exclusive(
                    args,
                    i + 2,
                    CliView { display_accel: args[i + 1], ..o },
                );
            }
        } else if a == "--base-accel"@ {
            if i + 1 < args.len() {
                lemma_parsed_modes_exclusive(args, i + 2, CliView { base_accel: args[i + 1], ..o });
            }
        }
    }
}

/// No argument from position `i` on is `flag`.
pub open spec fn absent_from(args: Seq<Seq<char>>, i: int, flag: Seq<char>) -> bool {
    forall|k: int| i <= k < args.len() ==> args[k] != flag
}

/// Each flag changes only its own option: when a flag does not occur
/// from position `i` on, a successful parse keeps that option as it was
/// (in particular, from the defaults, an option whose flag is never given
/// keeps its default, whatever other flags set).
pub proof fn lemma_parse_frame(args: Seq<Seq<char>>, i: int, o: CliView)
    ensures
        absent_from(args, i, "--dry-run"@) ==> (parse_from(args, i, o) matches Ok(p) ==> p.dry_run
            == o.dry_run),
        absent_from(args, i, "--revert-only"@) ==> (parse_from(args, i, o) matches Ok(p)
            ==> p.revert_only == o.revert_only),
        absent_from(args, i, "--acpi-path"@) ==> (parse_from(args, i, o) matches Ok(p)
            ==> p.acpi_path == o.acpi_path),
        absent_from(args, i, "--display-accel"@) ==> (parse_from(args, i, o) matches Ok(p)
            ==> p.display_accel == o.display_accel),
        absent_from(args, i, "--base-accel"@) ==> (parse_from(args, i, o) matches Ok(p)
            ==> p.base_accel == o.base_accel),
    decreases args.len() - i,
{
    if 0 <= i < args.len() {
        let a = args[i];
        if a == "--dry-run"@ {
            lemma_parse_frame(args, i + 1, CliView { dry_run: true, ..o });
        } else if a == "--revert-only"@ {
            lemma_parse_frame(args, i + 1, CliView { revert_only: true, ..o });
        } else if a == "--acpi-path"@ {
            if i + 1 < args.len() {
                lemma_parse_frame(args, i + 2, CliView { acpi_path: args[i + 1], ..o });
            }
        } else if a == "--display-accel"@ {
            if i + 1 < args.len() {
                lemma_parse_frame(args, i + 2, CliView { display_accel: args[i + 1], ..o });
            }
        } else if a == "--base-accel"@ {
            if i + 1 < args.len() {
                lemma_parse_frame(args, i + 2, CliView { base_accel: args[i + 1], ..o });
            }
        }
    }
}

/// A value flag sets its own option to the argument after it: when
/// `args[i]` is a value flag followed by a value, and the same flag does
/// not occur again after the value, a successful parse holds that value
/// in the flag's option.
pub proof fn lemma_parse_sets_value(args: Seq<Seq<char>>, i: int, o: CliView)
    requires
        0 <= i,
        i + 1 < args.len(),
    ensures
        args[i] == "--acpi-path"@ && absent_from(args, i + 2, "--acpi-path"@) ==> (parse_from(
            args,
            i,
            o,
        ) matches Ok(p) ==> p.acpi_path == args[i + 1]),
        args[i] == "--display-accel"@ && absent_from(args, i + 2, "--display-accel"@) ==> (
        parse_from(args, i, o) matches Ok(p) ==> p.display_accel == args[i + 1]),
        args[i] == "--base-accel"@ && absent_from(args, i + 2, "--base-accel"@) ==> (parse_from(
            args,
            i,
            o,
        ) matches Ok(p) ==> p.base_accel == args[i + 1]),
{
    reveal_strlit("--dry-run");
    reveal_strlit("--revert-only");
    reveal_strlit("--acpi-path");
    reveal_strlit("--display-accel");
    reveal_strlit("--base-accel");
    assert("--dry-run"@.len() == 9 && "--revert-only"@.len() == 13 && "--acpi-path"@.len() == 11
        && "--display-accel"@.len() == 15 && "--base-accel"@.len() == 12);
    assert("--acpi-path"@ != "--dry-run"@ && "--acpi-path"@ != "--revert-only"@);
    assert("--display-accel"@ != "--dry-run"@ && "--display-accel"@ != "--revert-only"@
        && "--display-accel"@ != "--acpi-path"@);
    assert("--base-accel"@ != "--dry-run"@ && "--base-accel"@ != "--revert-only"@
        && "--base-accel"@ != "--acpi-path"@ && "--base-accel"@ != "--display-accel"@);
    lemma_parse_frame(args, i + 2, CliView { acpi_path: args[i + 1], ..o });
    lemma_parse_frame(args, i + 2, CliView { display_accel: args[i + 1], ..o });
    lemma_parse_frame(args, i + 2, CliView { base_accel: args[i + 1], ..o });
}

} // verus!
