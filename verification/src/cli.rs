//! The command line: flags, their values, and the numbers in them.
use vstd::prelude::*;
use vstd::string::StrSliceExecFns;
use vstd::string::StringSliceAdditionalSpecFns;
use vstd::utf8::encode_utf8;

verus! {

/// The value of ASCII digit `c` in base `radix` (10 or 16; hex digits in
/// either case), if it is one.
pub open spec fn digit_value(c: u8, radix: nat) -> Option<nat> {
    if 0x30 <= c <= 0x39 {
        Some((c - 0x30) as nat)
    } else if radix == 16 && 0x61 <= c <= 0x66 {
        Some((c - 0x61 + 10) as nat)
    } else if radix == 16 && 0x41 <= c <= 0x46 {
        Some((c - 0x41 + 10) as nat)
    } else {
        None
    }
}

/// The number that the digit string `d` denotes in base `radix`, most
/// significant digit first; `None` if some byte is not a digit. The empty
/// string denotes 0.
pub open spec fn digits_value(d: Seq<u8>, radix: nat) -> Option<nat>
    decreases d.len(),
{
    if d.len() == 0 {
        Some(0)
    } else {
        match (digits_value(d.drop_last(), radix), digit_value(d.last(), radix)) {
            (Some(v), Some(x)) => Some(v * radix + x),
            _ => None,
        }
    }
}

/// An unsigned `from_str_radix` of the standard library, for a type whose
/// largest value is `max`: an optional `+`, then at least one digit, and a
/// value no larger than `max`.
pub open spec fn from_str_radix_spec(s: Seq<u8>, radix: nat, max: nat) -> Option<nat> {
    let d = if s.len() > 1 && s[0] == 0x2B { s.skip(1) } else { s };
    if s.len() == 0 {
        None
    } else {
        match digits_value(d, radix) {
            Some(v) => if v <= max {
                Some(v)
            } else {
                None
            },
            None => None,
        }
    }
}

/// `u32::from_str_radix(s, radix)`.
pub open spec fn from_str_radix_u32(s: Seq<u8>, radix: nat) -> Option<u32> {
    match from_str_radix_spec(s, radix, u32::MAX as nat) {
        Some(v) => Some(v as u32),
        None => None,
    }
}

/// `s.parse::<u64>()`: decimal, with the rules of `u64::from_str_radix`.
pub open spec fn parse_u64_spec(s: Seq<u8>) -> Option<u64> {
    match from_str_radix_spec(s, 10, u64::MAX as nat) {
        Some(v) => Some(v as u64),
        None => None,
    }
}

/// A command-line number: hexadecimal after a `0x` or `0X` prefix, decimal
/// otherwise.
pub open spec fn parse_u32_spec(s: Seq<u8>) -> Option<u32> {
    if s.len() >= 2 && s[0] == 0x30 && (s[1] == 0x78 || s[1] == 0x58) {
        from_str_radix_u32(s.skip(2), 16)
    } else {
        from_str_radix_u32(s, 10)
    }
}

/// Digit-by-digit evaluation of `s[start..]` in base `radix`, with the
/// standard library's rules for `from_str_radix` on a type whose largest
/// value is `max`.
fn from_str_radix(s: &[u8], start: usize, radix: u64, max: u64) -> (r: Option<u64>)
    requires
        start <= s@.len(),
        radix == 10 || radix == 16,
    ensures
        r == (match from_str_radix_spec(s@.skip(start as int), radix as nat, max as nat) {
            Some(v) => Some(v as u64),
            None => None::<u64>,
        }),
{
    let ghost t = s@.skip(start as int);
    if start == s.len() {
        return None;
    }
    let mut i = start;
    if s.len() - start > 1 && s[start] == 0x2B {
        i = start + 1;
    }
    let ghost d = s@.skip(i as int);
    assert(d == (if t.len() > 1 && t[0] == 0x2B { t.skip(1) } else { t }));
    let mut acc: u64 = 0;
    let mut overflow = false;
    let mut bad = false;
    let mut k = i;
    while k < s.len()
        invariant
            i <= k <= s@.len(),
            radix == 10 || radix == 16,
            d == s@.skip(i as int),
            !bad && !overflow ==> acc <= max && digits_value(s@.subrange(i as int, k as int), radix as nat) == Some(acc as nat),
            bad ==> digits_value(s@.subrange(i as int, k as int), radix as nat) is None,
            !bad && overflow ==> (digits_value(s@.subrange(i as int, k as int), radix as nat) is None
                || digits_value(s@.subrange(i as int, k as int), radix as nat).unwrap() > max),
        decreases s@.len() - k,
    {
        let c = s[k];
        let ghost pre = s@.subrange(i as int, k as int);
        let ghost next = s@.subrange(i as int, k + 1);
        assert(next.drop_last() == pre);
        assert(next.last() == c);
        let dv: Option<u64> = if 0x30 <= c && c <= 0x39 {
            Some((c - 0x30) as u64)
        } else if radix == 16 && 0x61 <= c && c <= 0x66 {
            Some((c - 0x61 + 10) as u64)
        } else if radix == 16 && 0x41 <= c && c <= 0x46 {
            Some((c - 0x41 + 10) as u64)
        } else {
            None
        };
        match dv {
            None => {
                bad = true;
            },
            Some(x) => {
                if !bad && !overflow {
                    match acc.checked_mul(radix) {
                        None => {
                            overflow = true;
                        },
                        Some(p) => match p.checked_add(x) {
                            None => {
                                overflow = true;
                            },
                            Some(v) => {
                                if v > max {
                                    overflow = true;
                                } else {
                                    acc = v;
                                }
                            },
                        },
                    }
                } else if !bad {
                    proof {
                        let pv = digits_value(pre, radix as nat);
                        if pv is Some {
                            assert(pv.unwrap() * (radix as nat) >= pv.unwrap()) by (nonlinear_arith)
                                requires
                                    radix >= 1,
                            ;
                        }
                    }
                }
            },
        }
        k = k + 1;
    }
    assert(s@.subrange(i as int, s@.len() as int) == d);
    if bad || overflow {
        None
    } else {
        Some(acc)
    }
}

/// Parse a command-line number: hexadecimal after `0x`/`0X`, decimal
/// otherwise; `None` when the text is not such a number or does not fit in
/// 32 bits.
pub fn parse_u32(s: &str) -> (r: Option<u32>)
    ensures
        r == parse_u32_spec(s.spec_bytes()),
{
    let b = s.as_bytes();
    let r = if b.len() >= 2 && b[0] == 0x30 && (b[1] == 0x78 || b[1] == 0x58) {
        from_str_radix(b, 2, 16, 0xFFFF_FFFF)
    } else {
        proof {
            assert(b@.skip(0) == b@);
        }
        from_str_radix(b, 0, 10, 0xFFFF_FFFF)
    };
    match r {
        Some(v) => Some(v as u32),
        None => None,
    }
}

/// Parse a decimal 64-bit number as `str::parse::<u64>` does.
pub fn parse_u64(s: &str) -> (r: Option<u64>)
    ensures
        r == parse_u64_spec(s.spec_bytes()),
{
    let b = s.as_bytes();
    proof {
        assert(b@.skip(0) == b@);
    }
    from_str_radix(b, 0, 10, 0xFFFF_FFFF_FFFF_FFFF)
}

/// Default DTB load address: 32 MiB into RAM, above any reasonable kernel
/// image, as real boards lay out the previous-stage handoff.
pub const DEFAULT_DTB_ADDR: u32 = 0x8220_0000;

/// Default kernel load address, where OpenSBI fw_jump expects its payload.
pub const DEFAULT_KERNEL_ADDR: u32 = 0x8040_0000;

/// A flag that takes a value.
#[derive(Clone, Copy, PartialEq, Eq, Debug, Structural)]
pub enum Flag {
    /// `--dtb <path>`
    Dtb,
    /// `--dtb-addr <addr>`
    DtbAddr,
    /// `--hartid <n>`
    HartId,
    /// `--load-base <addr>`
    LoadBase,
    /// `--kernel <path>`
    Kernel,
    /// `--kernel-addr <addr>`
    KernelAddr,
    /// `--max-cycles <n>`
    MaxCycles,
}

/// The flag spelled `a`, if any.
pub open spec fn flag_named(a: Seq<char>) -> Option<Flag> {
    if a == "--dtb"@ {
        Some(Flag::Dtb)
    } else if a == "--dtb-addr"@ {
        Some(Flag::DtbAddr)
    } else if a == "--hartid"@ {
        Some(Flag::HartId)
    } else if a == "--load-base"@ {
        Some(Flag::LoadBase)
    } else if a == "--kernel"@ {
        Some(Flag::Kernel)
    } else if a == "--kernel-addr"@ {
        Some(Flag::KernelAddr)
    } else if a == "--max-cycles"@ {
        Some(Flag::MaxCycles)
    } else {
        None
    }
}

/// Whether `a` asks for the usage text.
pub open spec fn is_help(a: Seq<char>) -> bool {
    a == "-h"@ || a == "--help"@
}

/// What the command line asks for.
#[derive(Clone, Debug)]
pub struct CliArgs {
    pub elf_path: String,
    pub dtb_path: Option<String>,
    pub dtb_addr: u32,
    pub hartid: u32,
    pub load_base: Option<u32>,
    pub kernel_path: Option<String>,
    pub kernel_addr: u32,
    pub max_cycles: Option<u64>,
}

/// The settings gathered so far while reading the arguments; the ELF path
/// is missing until one is seen.
pub ghost struct Settings {
    pub elf_path: Option<Seq<char>>,
    pub dtb_path: Option<Seq<char>>,
    pub dtb_addr: u32,
    pub hartid: u32,
    pub load_base: Option<u32>,
    pub kernel_path: Option<Seq<char>>,
    pub kernel_addr: u32,
    pub max_cycles: Option<u64>,
}

/// The settings before any argument.
pub open spec fn default_settings() -> Settings {
    Settings {
        elf_path: None,
        dtb_path: None,
        dtb_addr: DEFAULT_DTB_ADDR,
        hartid: 0,
        load_base: None,
        kernel_path: None,
        kernel_addr: DEFAULT_KERNEL_ADDR,
        max_cycles: None,
    }
}

/// The text of an optional string.
pub open spec fn opt_text(s: Option<String>) -> Option<Seq<char>> {
    match s {
        Some(t) => Some(t@),
        None => None,
    }
}

/// Parsed arguments as settings.
pub open spec fn settings_of(a: CliArgs) -> Settings {
    Settings {
        elf_path: Some(a.elf_path@),
        dtb_path: opt_text(a.dtb_path),
        dtb_addr: a.dtb_addr,
        hartid: a.hartid,
        load_base: a.load_base,
        kernel_path: opt_text(a.kernel_path),
        kernel_addr: a.kernel_addr,
        max_cycles: a.max_cycles,
    }
}

/// Why the command line was rejected. Positions count the arguments after
/// the program name from 0.
#[derive(Clone, Copy, PartialEq, Eq, Debug, Structural)]
pub enum CliError {
    /// The flag is the last argument, with no value after it.
    MissingValue(Flag),
    /// The value at `index` is not a number that `flag` takes.
    BadNumber { flag: Flag, index: usize },
    /// The argument at `index` starts with `-` but is no flag.
    UnknownFlag { index: usize },
    /// A second ELF path.
    MultipleElf,
    /// No ELF path at all.
    NoElf,
}

/// What the command line asks for: a run, or the usage text.
#[derive(Clone, Debug)]
pub enum Command {
    Run(CliArgs),
    Help,
}

/// The settings after flag `f` is given the value `v`; `None` when `f`
/// takes a number and `v` is not one of the right width.
pub open spec fn apply_flag(st: Settings, f: Flag, v: Seq<char>) -> Option<Settings> {
    match f {
        Flag::Dtb => Some(Settings { dtb_path: Some(v), ..st }),
        Flag::Kernel => Some(Settings { kernel_path: Some(v), ..st }),
        Flag::DtbAddr => match parse_u32_spec(encode_utf8(v)) {
            Some(n) => Some(Settings { dtb_addr: n, ..st }),
            None => None,
        },
        Flag::HartId => match parse_u32_spec(encode_utf8(v)) {
            Some(n) => Some(Settings { hartid: n, ..st }),
            None => None,
        },
        Flag::LoadBase => match parse_u32_spec(encode_utf8(v)) {
            Some(n) => Some(Settings { load_base: Some(n), ..st }),
            None => None,
        },
        Flag::KernelAddr => match parse_u32_spec(encode_utf8(v)) {
            Some(n) => Some(Settings { kernel_addr: n, ..st }),
            None => None,
        },
        Flag::MaxCycles => match parse_u64_spec(encode_utf8(v)) {
            Some(n) => Some(Settings { max_cycles: Some(n), ..st }),
            None => None,
        },
    }
}

/// Reading the arguments from position `i` on with settings `st`: the
/// final settings (`None` for the usage text), or the first error. A flag
/// takes the next argument as its value, whatever it looks like; `-h` or
/// `--help` stops at once; any other argument starting with `-` is an
/// error; the rest is the ELF path, which must come exactly once. Later
/// flags override earlier ones.
pub open spec fn parse_args_from(args: Seq<Seq<char>>, i: int, st: Settings) -> Result<
    Option<Settings>,
    CliError,
>
    decreases args.len() - i,
{
    if i < 0 || i >= args.len() {
        if st.elf_path is None {
            Err(CliError::NoElf)
        } else {
            Ok(Some(st))
        }
    } else {
        let a = args[i];
        if is_help(a) {
            Ok(None)
        } else {
            match flag_named(a) {
                Some(f) => if i + 1 >= args.len() {
                    Err(CliError::MissingValue(f))
                } else {
                    match apply_flag(st, f, args[i + 1]) {
                        Some(st2) => parse_args_from(args, i + 2, st2),
                        None => Err(CliError::BadNumber { flag: f, index: (i + 1) as usize }),
                    }
                },
                None => if a.len() > 0 && a[0] == '-' {
                    Err(CliError::UnknownFlag { index: i as usize })
                } else if st.elf_path is Some {
                    Err(CliError::MultipleElf)
                } else {
                    parse_args_from(args, i + 1, Settings { elf_path: Some(a), ..st })
                },
            }
        }
    }
}

/// The texts of the arguments.
pub open spec fn arg_texts(args: Seq<String>) -> Seq<Seq<char>> {
    args.map_values(|s: String| s@)
}

/// A parse outcome as settings.
pub open spec fn command_view(r: Result<Command, CliError>) -> Result<Option<Settings>, CliError> {
    match r {
        Ok(Command::Run(a)) => Ok(Some(settings_of(a))),
        Ok(Command::Help) => Ok(None),
        Err(e) => Err(e),
    }
}

/// Whether `a` spells `lit`.
fn spells(a: &String, lit: &str) -> (r: bool)
    ensures
        r == (a@ == lit@),
{
    let t = lit.to_owned();
    *a == t
}

/// The flag spelled `a`, if any.
fn flag_of(a: &String) -> (r: Option<Flag>)
    ensures
        r == flag_named(a@),
{
    if spells(a, "--dtb") {
        Some(Flag::Dtb)
    } else if spells(a, "--dtb-addr") {
        Some(Flag::DtbAddr)
    } else if spells(a, "--hartid") {
        Some(Flag::HartId)
    } else if spells(a, "--load-base") {
        Some(Flag::LoadBase)
    } else if spells(a, "--kernel") {
        Some(Flag::Kernel)
    } else if spells(a, "--kernel-addr") {
        Some(Flag::KernelAddr)
    } else if spells(a, "--max-cycles") {
        Some(Flag::MaxCycles)
    } else {
        None
    }
}

/// Reads the arguments that follow the program name.
pub fn parse_args(args: &Vec<String>) -> (r: Result<Command, CliError>)
    ensures
        command_view(r) == parse_args_from(arg_texts(args@), 0, default_settings()),
{
    let ghost texts = arg_texts(args@);
    let mut elf_path: Option<String> = None;
    let mut dtb_path: Option<String> = None;
    let mut dtb_addr: u32 = DEFAULT_DTB_ADDR;
    let mut hartid: u32 = 0;
    let mut load_base: Option<u32> = None;
    let mut kernel_path: Option<String> = None;
    let mut kernel_addr: u32 = DEFAULT_KERNEL_ADDR;
    let mut max_cycles: Option<u64> = None;
    let mut i: usize = 0;
    while i < args.len()
        invariant
            i <= args@.len(),
            texts == arg_texts(args@),
            parse_args_from(texts, 0, default_settings()) == parse_args_from(
                texts,
                i as int,
                Settings {
                    elf_path: opt_text(elf_path),
                    dtb_path: opt_text(dtb_path),
                    dtb_addr,
                    hartid,
                    load_base,
                    kernel_path: opt_text(kernel_path),
                    kernel_addr,
                    max_cycles,
                },
            ),
        decreases args@.len() - i,
    {
        let ghost st = Settings {
            elf_path: opt_text(elf_path),
            dtb_path: opt_text(dtb_path),
            dtb_addr,
            hartid,
            load_base,
            kernel_path: opt_text(kernel_path),
            kernel_addr,
            max_cycles,
        };
        let a = &args[i];
        assert(texts[i as int] == a@);
        if spells(a, "-h") || spells(a, "--help") {
            return Ok(Command::Help);
        }
        match flag_of(a) {
            Some(f) => {
                if i + 1 >= args.len() {
                    return Err(CliError::MissingValue(f));
                }
                let v = &args[i + 1];
                assert(texts[i + 1] == v@);
                match f {
                    Flag::Dtb => {
                        dtb_path = Some(v.clone());
                    },
                    Flag::Kernel => {
                        kernel_path = Some(v.clone());
                    },
                    Flag::MaxCycles => match parse_u64(v.as_str()) {
                        Some(n) => {
                            max_cycles = Some(n);
                        },
                        None => {
                            return Err(CliError::BadNumber { flag: f, index: i + 1 });
                        },
                    },
                    _ => match parse_u32(v.as_str()) {
                        Some(n) => match f {
                            Flag::DtbAddr => {
                                dtb_addr = n;
                            },
                            Flag::HartId => {
                                hartid = n;
                            },
                            Flag::LoadBase => {
                                load_base = Some(n);
                            },
                            _ => {
                                kernel_addr = n;
                            },
                        },
                        None => {
                            return Err(CliError::BadNumber { flag: f, index: i + 1 });
                        },
                    },
                }
                i = i + 2;
            },
            None => {
                let s = a.as_str();
                if s.unicode_len() > 0 && s.get_char(0) == '-' {
                    return Err(CliError::UnknownFlag { index: i });
                }
                if elf_path.is_some() {
                    return Err(CliError::MultipleElf);
                }
                elf_path = Some(a.clone());
                i = i + 1;
            },
        }
    }
    match elf_path {
        None => Err(CliError::NoElf),
        Some(elf_path) => Ok(
            Command::Run(
                CliArgs {
                    elf_path,
                    dtb_path,
                    dtb_addr,
                    hartid,
                    load_base,
                    kernel_path,
                    kernel_addr,
                    max_cycles,
                },
            ),
        ),
    }
}

/// How many cycles to simulate: the requested number, by default 10
/// billion when a kernel is booted and 10 million otherwise.
pub fn cycle_budget(max_cycles: Option<u64>, booting_kernel: bool) -> (n: u64)
    ensures
        n == (match max_cycles {
            Some(m) => m,
            None => if booting_kernel {
                10_000_000_000u64
            } else {
                10_000_000u64
            },
        }),
{
    match max_cycles {
        Some(m) => m,
        None => if booting_kernel {
            10_000_000_000
        } else {
            10_000_000
        },
    }
}

} // verus!
