use rvsim::cli::{
    cycle_budget, parse_args, parse_u32, parse_u64, CliError, Command, Flag, DEFAULT_DTB_ADDR,
    DEFAULT_KERNEL_ADDR,
};

fn args(v: &[&str]) -> Vec<String> {
    v.iter().map(|s| s.to_string()).collect()
}

#[test]
fn parses_decimal_and_hex() {
    assert_eq!(parse_u32("0"), Some(0));
    assert_eq!(parse_u32("42"), Some(42));
    assert_eq!(parse_u32("4294967295"), Some(0xFFFF_FFFF));
    assert_eq!(parse_u32("0x8220_0000"), None);
    assert_eq!(parse_u32("0x82200000"), Some(0x8220_0000));
    assert_eq!(parse_u32("0XdeadBEEF"), Some(0xDEAD_BEEF));
    assert_eq!(parse_u32("+7"), Some(7));
    assert_eq!(parse_u32("0x+10"), Some(16));
}

#[test]
fn rejects_what_is_not_a_u32() {
    assert_eq!(parse_u32(""), None);
    assert_eq!(parse_u32("+"), None);
    assert_eq!(parse_u32("-1"), None);
    assert_eq!(parse_u32("0x"), None);
    assert_eq!(parse_u32("4294967296"), None);
    assert_eq!(parse_u32("0x100000000"), None);
    assert_eq!(parse_u32("12a"), None);
    assert_eq!(parse_u32("0xg"), None);
    assert_eq!(parse_u32(" 1"), None);
}

#[test]
fn agrees_with_the_standard_library() {
    for s in ["1", "+1", "007", "99999999999", "abc", "", "0x1f", "0x", "0X10", "0x+", "++1"] {
        let expected = if let Some(h) = s.strip_prefix("0x").or_else(|| s.strip_prefix("0X")) {
            u32::from_str_radix(h, 16).ok()
        } else {
            s.parse::<u32>().ok()
        };
        assert_eq!(parse_u32(s), expected, "{}", s);
    }
}

#[test]
fn parses_u64_like_the_standard_library() {
    for s in ["0", "+5", "18446744073709551615", "18446744073709551616", "", "+", "-1", "1_000", "0x10"] {
        assert_eq!(parse_u64(s), s.parse::<u64>().ok(), "{}", s);
    }
    assert_eq!(parse_u64("10000000000"), Some(10_000_000_000));
}

#[test]
fn command_line_defaults() {
    match parse_args(&args(&["prog.elf"])).unwrap() {
        Command::Run(a) => {
            assert_eq!(a.elf_path, "prog.elf");
            assert_eq!(a.dtb_path, None);
            assert_eq!(a.dtb_addr, DEFAULT_DTB_ADDR);
            assert_eq!(a.hartid, 0);
            assert_eq!(a.load_base, None);
            assert_eq!(a.kernel_path, None);
            assert_eq!(a.kernel_addr, DEFAULT_KERNEL_ADDR);
            assert_eq!(a.max_cycles, None);
        }
        Command::Help => panic!("unexpected help"),
    }
}

#[test]
fn command_line_with_every_flag() {
    let a = args(&[
        "--dtb", "board.dtb", "--dtb-addr", "0x82000000", "--hartid", "3", "fw.elf",
        "--load-base", "0x80200000", "--kernel", "Image", "--kernel-addr", "2151677952",
        "--max-cycles", "500", "--hartid", "4",
    ]);
    match parse_args(&a).unwrap() {
        Command::Run(c) => {
            assert_eq!(c.elf_path, "fw.elf");
            assert_eq!(c.dtb_path.as_deref(), Some("board.dtb"));
            assert_eq!(c.dtb_addr, 0x8200_0000);
            assert_eq!(c.hartid, 4);
            assert_eq!(c.load_base, Some(0x8020_0000));
            assert_eq!(c.kernel_path.as_deref(), Some("Image"));
            assert_eq!(c.kernel_addr, 0x8040_0000);
            assert_eq!(c.max_cycles, Some(500));
        }
        Command::Help => panic!("unexpected help"),
    }
}

#[test]
fn a_flag_takes_the_next_argument_whatever_it_is() {
    match parse_args(&args(&["--dtb", "--help", "x.elf"])).unwrap() {
        Command::Run(c) => assert_eq!(c.dtb_path.as_deref(), Some("--help")),
        Command::Help => panic!("unexpected help"),
    }
}

#[test]
fn command_line_errors() {
    assert!(matches!(parse_args(&args(&["-h", "--bogus"])), Ok(Command::Help)));
    assert!(matches!(parse_args(&args(&["a.elf", "--help"])), Ok(Command::Help)));
    assert_eq!(parse_args(&args(&[])).unwrap_err(), CliError::NoElf);
    assert_eq!(parse_args(&args(&["--dtb"])).unwrap_err(), CliError::MissingValue(Flag::Dtb));
    assert_eq!(
        parse_args(&args(&["a.elf", "--hartid", "x"])).unwrap_err(),
        CliError::BadNumber { flag: Flag::HartId, index: 2 }
    );
    assert_eq!(
        parse_args(&args(&["--max-cycles", "0x10", "a.elf"])).unwrap_err(),
        CliError::BadNumber { flag: Flag::MaxCycles, index: 1 }
    );
    assert_eq!(
        parse_args(&args(&["a.elf", "-v"])).unwrap_err(),
        CliError::UnknownFlag { index: 1 }
    );
    assert_eq!(parse_args(&args(&["a.elf", "b.elf"])).unwrap_err(), CliError::MultipleElf);
    assert_eq!(parse_args(&args(&["-"])).unwrap_err(), CliError::UnknownFlag { index: 0 });
}

#[test]
fn cycle_budget_defaults() {
    assert_eq!(cycle_budget(None, false), 10_000_000);
    assert_eq!(cycle_budget(None, true), 10_000_000_000);
    assert_eq!(cycle_budget(Some(7), true), 7);
}
