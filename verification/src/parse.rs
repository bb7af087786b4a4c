//! The command-line grammar.
//!
//! A literal `--` divides the argument list: supervisor flags stand before
//! it, the command to run after it.  A missing separator or an empty
//! command is a usage error, except that a help request among the flags
//! wins over everything.  Flags are single tokens; the kill timer and the
//! watched paths take their value from the following token.  Every boolean
//! flag and the kill timer may be given once; the file flag is repeatable.
//! The kill timer must be a non-negative decimal number that fits the
//! timer's range.

use vstd::prelude::*;

use crate::options::{Options, OptionsView, DEFAULT_KILL_TIMER_MS};

verus! {

/// Why an argument list was rejected, or that help was asked for.
///
/// A help request is not a fault: it exits successfully, every other
/// variant with the setup failure code.
#[derive(Clone, Copy, Debug, PartialEq, Eq, Structural)]
pub enum ParseError {
    /// `-h` or `--help` stood among the flags.
    HelpRequested,
    /// No `--` separator, or nothing after it.
    MissingCommand,
    /// A flag that may be given once was given twice.
    DuplicateFlag,
    /// A flag that takes a value stood last, with no value to take.
    MissingValue,
    /// The kill-timer value is not a non-negative decimal number in range.
    BadKillTimer,
    /// A token among the flags that is no known flag.
    UnknownFlag,
}

/// The exit code a parse outcome dictates: success for a help request,
/// the setup failure code for every real error.
pub fn parse_exit_code(e: &ParseError) -> (r: u8)
    ensures
        e is HelpRequested ==> r == 0,
        !(e is HelpRequested) ==> r == 1,
{
    match e {
        ParseError::HelpRequested => 0,
        _ => 1,
    }
}

/// A decimal digit.
pub open spec fn is_digit(c: char) -> bool {
    48 <= c as u32 <= 57
}

/// The value of a decimal digit.
pub open spec fn digit_val(c: char) -> int {
    c as u32 - 48
}

/// Whether every character is a decimal digit.
pub open spec fn all_digits(s: Seq<char>) -> bool {
    forall|i: int| 0 <= i < s.len() ==> is_digit(s[i])
}

/// The number a digit string denotes, most significant digit first.
pub open spec fn dec_value(s: Seq<char>) -> int
    decreases s.len(),
{
    if s.len() == 0 {
        0
    } else {
        dec_value(s.drop_last()) * 10 + digit_val(s.last())
    }
}

/// A legal kill-timer token: non-empty, all digits, and in range.
pub open spec fn timer_ok(s: Seq<char>) -> bool {
    s.len() > 0 && all_digits(s) && dec_value(s) <= i32::MAX
}

/// A digit string never denotes a negative number.
pub proof fn lemma_dec_value_nonneg(s: Seq<char>)
    requires
        all_digits(s),
    ensures
        dec_value(s) >= 0,
    decreases s.len(),
{
    if s.len() > 0 {
        assert(all_digits(s.drop_last())) by {
            assert(forall|i: int|
                0 <= i < s.drop_last().len() ==> s.drop_last()[i] == s[i] && is_digit(#[trigger] s[i]));
        }
        lemma_dec_value_nonneg(s.drop_last());
        assert(is_digit(s.last()));
    }
}

/// Extending a digit string never shrinks its value: the value of a
/// prefix is at most the value of the whole.
pub proof fn lemma_dec_value_prefix_le(s: Seq<char>, i: int)
    requires
        all_digits(s),
        0 <= i <= s.len(),
    ensures
        dec_value(s.take(i)) <= dec_value(s),
    decreases s.len() - i,
{
    if i < s.len() {
        assert(s.take(i + 1).drop_last() =~= s.take(i));
        assert(s.take(i + 1).last() == s[i]);
        assert(all_digits(s.take(i))) by {
            assert(forall|j: int|
                0 <= j < s.take(i).len() ==> s.take(i)[j] == s[j] && is_digit(#[trigger] s[j]));
        }
        lemma_dec_value_nonneg(s.take(i));
        assert(is_digit(s[i]));
        assert(dec_value(s.take(i + 1)) == dec_value(s.take(i)) * 10 + digit_val(s[i]));
        assert(dec_value(s.take(i)) <= dec_value(s.take(i)) * 10 + digit_val(s[i]));
        lemma_dec_value_prefix_le(s, i + 1);
    } else {
        assert(s.take(i) =~= s);
    }
}

/// The position of the first occurrence of `t` among the tokens, or -1
/// when it does not occur.
pub open spec fn find_first(toks: Seq<Seq<char>>, t: Seq<char>) -> int
    decreases toks.len(),
{
    if toks.len() == 0 {
        -1
    } else if toks[0] == t {
        0
    } else {
        let r = find_first(toks.drop_first(), t);
        if r < 0 {
            -1
        } else {
            r + 1
        }
    }
}

/// What [`find_first`] returns: -1 exactly when the token is absent, and
/// otherwise the least position holding it.
pub proof fn lemma_find_first(toks: Seq<Seq<char>>, t: Seq<char>)
    ensures
        find_first(toks, t) >= -1,
        find_first(toks, t) == -1 <==> (forall|i: int| 0 <= i < toks.len() ==> toks[i] != t),
        find_first(toks, t) >= 0 ==> find_first(toks, t) < toks.len() && toks[find_first(toks, t)]
            == t && (forall|j: int| 0 <= j < find_first(toks, t) ==> toks[j] != t),
    decreases toks.len(),
{
    if toks.len() > 0 && toks[0] != t {
        lemma_find_first(toks.drop_first(), t);
        let r = find_first(toks.drop_first(), t);
        if r == -1 {
            assert forall|i: int| 0 <= i < toks.len() implies toks[i] != t by {
                if i > 0 {
                    assert(toks.drop_first()[i - 1] == toks[i]);
                }
            }
        } else {
            assert(toks.drop_first()[r] == toks[r + 1]);
            assert forall|j: int| 0 <= j < r + 1 implies toks[j] != t by {
                if j > 0 {
                    assert(toks.drop_first()[j - 1] == toks[j]);
                }
            }
        }
    }
}

/// Whether a help flag stands among the tokens.
pub open spec fn help_requested(toks: Seq<Seq<char>>) -> bool {
    exists|i: int| 0 <= i < toks.len() && (toks[i] == "-h"@ || toks[i] == "--help"@)
}

/// The running result of the flag scan: which flags were seen, the kill
/// timer if one was given, and the watched paths in order.
#[verifier::ext_equal]
pub struct FlagScan {
    pub exit_on_zero: bool,
    pub exit_on_error: bool,
    pub restart_on_zero: bool,
    pub restart_on_error: bool,
    pub recursive: bool,
    pub verbose: bool,
    pub kill_timer: Option<int>,
    pub files: Seq<Seq<char>>,
}

/// The scan before any token: nothing seen.
pub open spec fn init_flags() -> FlagScan {
    FlagScan {
        exit_on_zero: false,
        exit_on_error: false,
        restart_on_zero: false,
        restart_on_error: false,
        recursive: false,
        verbose: false,
        kill_timer: None,
        files: Seq::empty(),
    }
}

/// The flag grammar, one token at a time.  Boolean flags may not repeat;
/// the kill timer may be given once and takes the next token as value; the
/// file flag repeats, each occurrence taking the next token; anything else
/// is unknown.
pub open spec fn scan_flags(toks: Seq<Seq<char>>, acc: FlagScan) -> Result<FlagScan, ParseError>
    decreases toks.len(),
{
    if toks.len() == 0 {
        Ok(acc)
    } else {
        let t = toks[0];
        if t == "-e"@ || t == "--exit"@ {
            if acc.exit_on_zero {
                Err(ParseError::DuplicateFlag)
            } else {
                scan_flags(toks.drop_first(), FlagScan { exit_on_zero: true, ..acc })
            }
        } else if t == "-E"@ || t == "--exit-on-error"@ {
            if acc.exit_on_error {
                Err(ParseError::DuplicateFlag)
            } else {
                scan_flags(toks.drop_first(), FlagScan { exit_on_error: true, ..acc })
            }
        } else if t == "-s"@ || t == "--restart"@ {
            if acc.restart_on_zero {
                Err(ParseError::DuplicateFlag)
            } else {
                scan_flags(toks.drop_first(), FlagScan { restart_on_zero: true, ..acc })
            }
        } else if t == "-S"@ || t == "--restart-on-error"@ {
            if acc.restart_on_error {
                Err(ParseError::DuplicateFlag)
            } else {
                scan_flags(toks.drop_first(), FlagScan { restart_on_error: true, ..acc })
            }
        } else if t == "-r"@ || t == "--recursive"@ {
            if acc.recursive {
                Err(ParseError::DuplicateFlag)
            } else {
                scan_flags(toks.drop_first(), FlagScan { recursive: true, ..acc })
            }
        } else if t == "-v"@ || t == "--verbose"@ {
            if acc.verbose {
                Err(ParseError::DuplicateFlag)
            } else {
                scan_flags(toks.drop_first(), FlagScan { verbose: true, ..acc })
            }
        } else if t == "-k"@ || t == "--kill-timer"@ {
            if acc.kill_timer is Some {
                Err(ParseError::DuplicateFlag)
            } else if toks.len() == 1 {
                Err(ParseError::MissingValue)
            } else if timer_ok(toks[1]) {
                scan_flags(toks.skip(2), FlagScan { kill_timer: Some(dec_value(toks[1])), ..acc })
            } else {
                Err(ParseError::BadKillTimer)
            }
        } else if t == "-f"@ || t == "--file"@ {
            if toks.len() == 1 {
                Err(ParseError::MissingValue)
            } else {
                scan_flags(toks.skip(2), FlagScan { files: acc.files.push(toks[1]), ..acc })
            }
        } else {
            Err(ParseError::UnknownFlag)
        }
    }
}

/// The whole grammar.  The first `--` divides flags from command; a help
/// flag anywhere among the flags wins; without a separator, or with
/// nothing after it, there is no command to run; otherwise the flags are
/// scanned and the configuration assembled, with the default kill timer
/// where none was given.
pub open spec fn parse_spec(args: Seq<Seq<char>>) -> Result<OptionsView, ParseError> {
    let sep = find_first(args, "--"@);
    let flags = if sep < 0 {
        args
    } else {
        args.take(sep)
    };
    if help_requested(flags) {
        Err(ParseError::HelpRequested)
    } else if sep < 0 || args.skip(sep + 1).len() == 0 {
        Err(ParseError::MissingCommand)
    } else {
        match scan_flags(flags, init_flags()) {
            Err(e) => Err(e),
            Ok(f) => Ok(
                OptionsView {
                    exit_on_zero: f.exit_on_zero,
                    exit_on_error: f.exit_on_error,
                    restart_on_zero: f.restart_on_zero,
                    restart_on_error: f.restart_on_error,
                    recursive: f.recursive,
                    verbose: f.verbose,
                    kill_timer: match f.kill_timer {
                        Some(v) => v,
                        None => DEFAULT_KILL_TIMER_MS as int,
                    },
                    command: args.skip(sep + 1),
                    files: f.files,
                },
            ),
        }
    }
}

/// Read a kill-timer token: the denoted number when the token is a
/// non-negative decimal in range, the parse error otherwise.
pub fn parse_kill_timer(s: &String) -> (r: Result<i32, ParseError>)
    ensures
        match r {
            Ok(v) => timer_ok(s@) && v as int == dec_value(s@) && 0 <= v,
            Err(e) => !timer_ok(s@) && e == ParseError::BadKillTimer,
        },
{
    let st = s.as_str();
    let n = st.unicode_len();
    if n == 0 {
        return Err(ParseError::BadKillTimer);
    }
    let mut acc: i64 = 0;
    let mut i: usize = 0;
    assert(s@.take(0) =~= Seq::<char>::empty());
    while i < n
        invariant
            n == s@.len(),
            st@ == s@,
            i <= n,
            all_digits(s@.take(i as int)),
            acc == dec_value(s@.take(i as int)),
            0 <= acc <= i32::MAX,
        decreases n - i,
    {
        let c = st.get_char(i);
        let u = c as u32;
        if u < 48 || u > 57 {
            assert(!is_digit(s@[i as int]));
            return Err(ParseError::BadKillTimer);
        }
        assert(is_digit(s@[i as int]));
        let d: i64 = (u - 48) as i64;
        acc = acc * 10 + d;
        assert(s@.take(i + 1).drop_last() =~= s@.take(i as int));
        assert(s@.take(i + 1).last() == s@[i as int]);
        assert(all_digits(s@.take(i + 1))) by {
            assert(forall|j: int|
                0 <= j < i ==> s@.take(i + 1)[j] == s@.take(i as int)[j]);
        }
        if acc > i32::MAX as i64 {
            proof {
                if all_digits(s@) {
                    lemma_dec_value_prefix_le(s@, i + 1);
                }
            }
            return Err(ParseError::BadKillTimer);
        }
        i = i + 1;
    }
    assert(s@.take(n as int) =~= s@);
    Ok(acc as i32)
}

/// Whether a token spells the given flag.
fn tok_is(t: &String, lit: &str) -> (r: bool)
    ensures
        r == (t@ == lit@),
{
    *t == lit.to_owned()
}

/// The scan an `Option` of timer values stands for.
spec fn kt_view(kt: Option<i32>) -> Option<int> {
    match kt {
        Some(v) => Some(v as int),
        None => None,
    }
}

/// Index access through `deep_view` is index access through the views.
proof fn lemma_deep_view_index(v: &Vec<String>, i: int)
    requires
        0 <= i < v@.len(),
    ensures
        v.deep_view().len() == v@.len(),
        v.deep_view()[i] == v@[i]@,
{
}

/// Read a whole argument list, the program name already removed, into a
/// configuration: exactly [`parse_spec`] of the tokens.  Every accepted
/// configuration is well-formed.
pub fn parse_args(args: Vec<String>) -> (r: Result<Options, ParseError>)
    ensures
        (match r {
            Ok(o) => parse_spec(args.deep_view()) == Ok::<OptionsView, ParseError>(o@) && o.wf(),
            Err(e) => parse_spec(args.deep_view()) == Err::<OptionsView, ParseError>(e),
        }),
{
    let ghost adv = args.deep_view();
    let n = args.len();
    proof {
        assert(adv.len() == n);
    }

    // The separator's position, if any.
    let mut sep: usize = 0;
    let mut sep_found: bool = false;
    let mut i: usize = 0;
    while i < n && !sep_found
        invariant
            i <= n,
            n == args@.len(),
            adv == args.deep_view(),
            adv.len() == n,
            sep_found ==> sep == i < n && adv[sep as int] == "--"@ && (forall|j: int|
                0 <= j < sep ==> adv[j] != "--"@),
            !sep_found ==> sep == 0 && (forall|j: int| 0 <= j < i ==> adv[j] != "--"@),
        decreases n - i + (if sep_found { 0int } else { 1int }),
    {
        proof {
            lemma_deep_view_index(&args, i as int);
        }
        if tok_is(&args[i], "--") {
            sep = i;
            sep_found = true;
        } else {
            i = i + 1;
        }
    }
    proof {
        lemma_find_first(adv, "--"@);
        let r = find_first(adv, "--"@);
        if sep_found {
            assert(adv[sep as int] == "--"@);
            assert(r != -1);
            if r < sep as int {
                assert(adv[r] == "--"@);
                assert(false);
            }
            if r > sep as int {
                assert(adv[sep as int] != "--"@);
                assert(false);
            }
            assert(r == sep as int);
        } else {
            assert(r == -1);
        }
    }
    let flag_end: usize = if sep_found {
        sep
    } else {
        n
    };
    let ghost flags = if sep_found {
        adv.take(sep as int)
    } else {
        adv
    };
    proof {
        assert(flags.len() == flag_end);
        assert(forall|k: int| 0 <= k < flag_end ==> flags[k] == adv[k]);
    }

    // A help request among the flags wins over everything.
    let mut j: usize = 0;
    while j < flag_end
        invariant
            j <= flag_end,
            flag_end <= n,
            n == args@.len(),
            adv == args.deep_view(),
            adv.len() == n,
            flags.len() == flag_end,
            forall|k: int| 0 <= k < flag_end ==> flags[k] == adv[k],
            find_first(adv, "--"@) == (if sep_found {
                sep as int
            } else {
                -1
            }),
            flags == (if sep_found {
                adv.take(sep as int)
            } else {
                adv
            }),
            forall|k: int| 0 <= k < j ==> !(flags[k] == "-h"@ || flags[k] == "--help"@),
        decreases flag_end - j,
    {
        proof {
            lemma_deep_view_index(&args, j as int);
        }
        if tok_is(&args[j], "-h") || tok_is(&args[j], "--help") {
            proof {
                assert(flags[j as int] == adv[j as int]);
                assert(help_requested(flags));
            }
            return Err(ParseError::HelpRequested);
        }
        j = j + 1;
    }
    proof {
        assert(!help_requested(flags));
    }

    if !sep_found {
        return Err(ParseError::MissingCommand);
    }
    if sep + 1 >= n {
        proof {
            assert(adv.skip(sep as int + 1).len() == 0);
        }
        return Err(ParseError::MissingCommand);
    }

    // Scan the flags in order.
    let mut exit_on_zero: bool = false;
    let mut exit_on_error: bool = false;
    let mut restart_on_zero: bool = false;
    let mut restart_on_error: bool = false;
    let mut recursive: bool = false;
    let mut verbose: bool = false;
    let mut kt: Option<i32> = None;
    let mut files: Vec<String> = Vec::new();
    let mut j: usize = 0;
    proof {
        assert(flags.skip(0) =~= flags);
        assert(files.deep_view() =~= Seq::<Seq<char>>::empty());
    }
    while j < flag_end
        invariant
            j <= flag_end,
            flag_end == sep,
            sep + 1 < n,
            n == args@.len(),
            adv == args.deep_view(),
            adv.len() == n,
            flags.len() == flag_end,
            forall|k: int| 0 <= k < flag_end ==> flags[k] == adv[k],
            find_first(adv, "--"@) == sep as int,
            flags == adv.take(sep as int),
            !help_requested(flags),
            kt matches Some(v) ==> 0 <= v,
            scan_flags(flags, init_flags()) == scan_flags(
                flags.skip(j as int),
                (FlagScan {
                    exit_on_zero,
                    exit_on_error,
                    restart_on_zero,
                    restart_on_error,
                    recursive,
                    verbose,
                    kill_timer: kt_view(kt),
                    files: files.deep_view(),
                }),
            ),
        decreases flag_end - j,
    {
        proof {
            lemma_deep_view_index(&args, j as int);
            assert(flags.skip(j as int)[0] == flags[j as int]);
            assert(flags.skip(j as int).len() == flag_end - j);
        }
        let t = &args[j];
        if tok_is(t, "-e") || tok_is(t, "--exit") {
            if exit_on_zero {
                return Err(ParseError::DuplicateFlag);
            }
            exit_on_zero = true;
            proof {
                assert(flags.skip(j as int).drop_first() =~= flags.skip(j as int + 1));
            }
            j = j + 1;
        } else if tok_is(t, "-E") || tok_is(t, "--exit-on-error") {
            if exit_on_error {
                return Err(ParseError::DuplicateFlag);
            }
            exit_on_error = true;
            proof {
                assert(flags.skip(j as int).drop_first() =~= flags.skip(j as int + 1));
            }
            j = j + 1;
        } else if tok_is(t, "-s") || tok_is(t, "--restart") {
            if restart_on_zero {
                return Err(ParseError::DuplicateFlag);
            }
            restart_on_zero = true;
            proof {
                assert(flags.skip(j as int).drop_first() =~= flags.skip(j as int + 1));
            }
            j = j + 1;
        } else if tok_is(t, "-S") || tok_is(t, "--restart-on-error") {
            if restart_on_error {
                return Err(ParseError::DuplicateFlag);
            }
            restart_on_error = true;
            proof {
                assert(flags.skip(j as int).drop_first() =~= flags.skip(j as int + 1));
            }
            j = j + 1;
        } else if tok_is(t, "-r") || tok_is(t, "--recursive") {
            if recursive {
                return Err(ParseError::DuplicateFlag);
            }
            recursive = true;
            proof {
                assert(flags.skip(j as int).drop_first() =~= flags.skip(j as int + 1));
            }
            j = j + 1;
        } else if tok_is(t, "-v") || tok_is(t, "--verbose") {
            if verbose {
                return Err(ParseError::DuplicateFlag);
            }
            verbose = true;
            proof {
                assert(flags.skip(j as int).drop_first() =~= flags.skip(j as int + 1));
            }
            j = j + 1;
        } else if tok_is(t, "-k") || tok_is(t, "--kill-timer") {
            if kt.is_some() {
                return Err(ParseError::DuplicateFlag);
            }
            if j + 1 >= flag_end {
                return Err(ParseError::MissingValue);
            }
            proof {
                lemma_deep_view_index(&args, j as int + 1);
                assert(flags.skip(j as int)[1] == flags[j as int + 1]);
            }
            match parse_kill_timer(&args[j + 1]) {
                Ok(v) => {
                    kt = Some(v);
                    proof {
                        assert(flags.skip(j as int).skip(2) =~= flags.skip(j as int + 2));
                    }
                    j = j + 2;
                },
                Err(_) => {
                    return Err(ParseError::BadKillTimer);
                },
            }
        } else if tok_is(t, "-f") || tok_is(t, "--file") {
            if j + 1 >= flag_end {
                return Err(ParseError::MissingValue);
            }
            proof {
                lemma_deep_view_index(&args, j as int + 1);
                assert(flags.skip(j as int)[1] == flags[j as int + 1]);
            }
            let v = args[j + 1].clone();
            let ghost gv = v@;
            let ghost pre_view = files@;
            let ghost pre_deep = files.deep_view();
            files.push(v);
            proof {
                assert(gv == flags[j as int + 1]);
                assert(files@.len() == pre_view.len() + 1);
                assert forall|m: int| 0 <= m < files@.len() implies files.deep_view()[m]
                    == pre_deep.push(gv)[m] by {
                    if m < pre_view.len() {
                        assert(files@[m] == pre_view[m]);
                        assert(pre_deep[m] == pre_view[m]@);
                    } else {
                        assert(files@[m]@ == gv);
                    }
                }
                assert(files.deep_view() =~= pre_deep.push(gv));
                assert(flags.skip(j as int).skip(2) =~= flags.skip(j as int + 2));
            }
            j = j + 2;
        } else {
            return Err(ParseError::UnknownFlag);
        }
    }
    let ghost scanned = FlagScan {
        exit_on_zero,
        exit_on_error,
        restart_on_zero,
        restart_on_error,
        recursive,
        verbose,
        kill_timer: kt_view(kt),
        files: files.deep_view(),
    };
    proof {
        assert(flags.skip(flag_end as int) =~= Seq::<Seq<char>>::empty());
        assert(scan_flags(flags, init_flags()) == Ok::<FlagScan, ParseError>(scanned));
    }

    // The command after the separator.
    let mut command: Vec<String> = Vec::new();
    let mut k: usize = sep + 1;
    while k < n
        invariant
            sep + 1 <= k <= n,
            n == args@.len(),
            adv == args.deep_view(),
            adv.len() == n,
            command@.len() == k - (sep + 1),
            forall|m: int| 0 <= m < command@.len() ==> command@[m]@ == adv[sep + 1 + m],
        decreases n - k,
    {
        proof {
            lemma_deep_view_index(&args, k as int);
        }
        let v = args[k].clone();
        let ghost gv = v@;
        let ghost pre_view = command@;
        command.push(v);
        proof {
            assert(gv == adv[k as int]);
            assert forall|m: int| 0 <= m < command@.len() implies command@[m]@ == adv[sep + 1
                + m] by {
                if m < pre_view.len() {
                    assert(command@[m] == pre_view[m]);
                } else {
                    assert(command@[m]@ == gv);
                }
            }
        }
        k = k + 1;
    }
    proof {
        assert(command.deep_view() =~= adv.skip(sep as int + 1)) by {
            assert(forall|m: int|
                0 <= m < command@.len() ==> command.deep_view()[m] == command@[m]@);
            assert(forall|m: int|
                0 <= m < adv.skip(sep as int + 1).len() ==> #[trigger] adv.skip(sep as int + 1)[m]
                    == adv[sep + 1 + m]);
        }
    }

    let kill_timer: i32 = match kt {
        Some(v) => v,
        None => DEFAULT_KILL_TIMER_MS,
    };
    let o = Options {
        exit_on_zero,
        exit_on_error,
        restart_on_zero,
        restart_on_error,
        recursive,
        verbose,
        kill_timer,
        command,
        files,
    };
    proof {
        let spec_view = OptionsView {
            exit_on_zero: scanned.exit_on_zero,
            exit_on_error: scanned.exit_on_error,
            restart_on_zero: scanned.restart_on_zero,
            restart_on_error: scanned.restart_on_error,
            recursive: scanned.recursive,
            verbose: scanned.verbose,
            kill_timer: match scanned.kill_timer {
                Some(v) => v,
                None => DEFAULT_KILL_TIMER_MS as int,
            },
            command: adv.skip(sep as int + 1),
            files: scanned.files,
        };
        assert(o@ =~= spec_view);
        assert(parse_spec(adv) == Ok::<OptionsView, ParseError>(spec_view));
    }
    Ok(o)
}

} // verus!
