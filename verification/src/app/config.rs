//! Start-up options.

use vstd::prelude::*;
use crate::board::Board;
use crate::text::{push_str, same_text};

verus! {

/// How a game should be set up.
#[derive(Debug, Clone, Copy, PartialEq, Eq, Structural)]
pub struct Config {
    /// Board columns.
    pub columns: i16,
    /// Board rows.
    pub rows: i16,
    /// Piece-sequence seed; [`None`] draws one from the clock.
    pub seed: Option<u64>,
}

/// The configuration of a standard game: ten by twenty, seeded from the clock.
pub open spec fn standard_config() -> Config {
    Config { columns: 10, rows: 20, seed: None }
}

impl Default for Config {
    fn default() -> (c: Config)
        ensures
            c == standard_config(),
    {
        Config { columns: Board::STANDARD_WIDTH, rows: Board::STANDARD_HEIGHT, seed: None }
    }
}

/// Whether `c` is a decimal digit.
pub open spec fn is_digit(c: char) -> bool {
    '0' <= c <= '9'
}

/// Whether every character of `s` is a decimal digit.
pub open spec fn all_digits(s: Seq<char>) -> bool {
    forall|i: int| 0 <= i < s.len() ==> is_digit(#[trigger] s[i])
}

/// The number the decimal digits `s` spell.
pub open spec fn digits_value(s: Seq<char>) -> int
    decreases s.len(),
{
    if s.len() == 0 {
        0
    } else {
        digits_value(s.drop_last()) * 10 + (s.last() as int - '0' as int)
    }
}

/// The integer `text` spells, read as an integer type from `min` to `max`
/// reads it: an optional `+`, or `-` where the type has negative values, then
/// one or more decimal digits, with a value the type can hold.
pub open spec fn parsed_integer(text: Seq<char>, min: int, max: int) -> Option<int> {
    let negative = text.len() > 0 && text[0] == '-' && min < 0;
    let body = if text.len() > 0 && (text[0] == '+' || negative) {
        text.drop_first()
    } else {
        text
    };
    if body.len() == 0 || !all_digits(body) {
        None
    } else {
        let v = if negative {
            -digits_value(body)
        } else {
            digits_value(body)
        };
        if min <= v <= max {
            Some(v)
        } else {
            None
        }
    }
}

/// A longer run of digits is worth at least as much as its start.
proof fn lemma_digits_grow(s: Seq<char>, k: int)
    requires
        0 <= k <= s.len(),
        forall|i: int| 0 <= i < s.len() ==> is_digit(#[trigger] s[i]),
    ensures
        digits_value(s.take(k)) <= digits_value(s),
        0 <= digits_value(s.take(k)),
    decreases s.len() - k,
{
    if k < s.len() {
        lemma_digits_grow(s, k + 1);
        assert(s.take(k + 1).drop_last() =~= s.take(k));
        assert(is_digit(s[k]));
    } else {
        assert(s.take(k) =~= s);
    }
    lemma_digits_nonnegative(s.take(k));
}

/// Digits are worth nothing negative.
proof fn lemma_digits_nonnegative(s: Seq<char>)
    requires
        forall|i: int| 0 <= i < s.len() ==> is_digit(#[trigger] s[i]),
    ensures
        0 <= digits_value(s),
    decreases s.len(),
{
    if s.len() > 0 {
        assert(is_digit(s[s.len() - 1]));
        lemma_digits_nonnegative(s.drop_last());
    }
}

/// The integer `text` spells, for an integer type from `min` to `max`, or
/// nothing when it spells none.
fn parse_integer(text: &str, min: i128, max: i128) -> (r: Option<i128>)
    requires
        -0x1_0000_0000_0000_0000 <= min <= 0 <= max <= 0xffff_ffff_ffff_ffff,
    ensures
        r matches Some(v) ==> parsed_integer(text@, min as int, max as int) == Some(v as int),
        r is None ==> parsed_integer(text@, min as int, max as int) is None,
{
    let n = text.unicode_len();
    let negative = n > 0 && text.get_char(0) == '-' && min < 0;
    let start: usize = if n > 0 && (text.get_char(0) == '+' || negative) {
        1
    } else {
        0
    };
    let ghost body = if text@.len() > 0 && (text@[0] == '+' || negative) {
        text@.drop_first()
    } else {
        text@
    };
    assert(body =~= text@.skip(start as int));
    if start >= n {
        return None;
    }
    let mut k: usize = start;
    while k < n
        invariant
            start <= k <= n,
            n == text@.len(),
            negative == (text@.len() > 0 && text@[0] == '-' && min < 0),
            body == (if text@.len() > 0 && (text@[0] == '+' || negative) {
                text@.drop_first()
            } else {
                text@
            }),
            -0x1_0000_0000_0000_0000 <= min <= 0 <= max <= 0xffff_ffff_ffff_ffff,
            body == text@.skip(start as int),
            forall|m: int| 0 <= m < k - start ==> is_digit(#[trigger] body[m]),
        decreases n - k,
    {
        let c = text.get_char(k);
        assert(c == body[k - start]);
        if c < '0' || c > '9' {
            assert(!is_digit(body[k - start]));
            assert(!all_digits(body));
            return None;
        }
        k = k + 1;
    }
    let limit: u128 = if negative {
        (-min) as u128
    } else {
        max as u128
    };
    let mut value: u128 = 0;
    let mut i: usize = start;
    while i < n
        invariant
            start <= i <= n,
            n == text@.len(),
            limit == (if negative { -min } else { max as int }),
            negative == (text@.len() > 0 && text@[0] == '-' && min < 0),
            body == (if text@.len() > 0 && (text@[0] == '+' || negative) {
                text@.drop_first()
            } else {
                text@
            }),
            -0x1_0000_0000_0000_0000 <= min <= 0 <= max <= 0xffff_ffff_ffff_ffff,
            body == text@.skip(start as int),
            value <= limit,
            limit <= 0x1_0000_0000_0000_0000,
            value == digits_value(body.take(i - start)),
            forall|m: int| 0 <= m < body.len() ==> is_digit(#[trigger] body[m]),
        decreases n - i,
    {
        let c = text.get_char(i);
        assert(c == body[i - start]);
        assert(is_digit(body[i - start]));
        let d: u128 = (c as u32 - '0' as u32) as u128;
        let next = value * 10 + d;
        assert(body.take(i + 1 - start).drop_last() =~= body.take(i - start));
        assert(next == digits_value(body.take(i + 1 - start)));
        if next > limit {
            proof {
                lemma_digits_grow(body, i + 1 - start);
                assert(digits_value(body) > limit);
                assert(body.len() > 0);
                if negative {
                    assert(limit == -min);
                } else {
                    assert(limit == max);
                }
            }
            return None;
        }
        value = next;
        i = i + 1;
    }
    assert(body.take(n - start) =~= body);
    if negative {
        Some(-(value as i128))
    } else {
        Some(value as i128)
    }
}

/// The usage text shown for `--help` and for a bad argument.
pub const USAGE: &'static str = "tetris-tui [--seed N] [--columns N] [--rows N]\n\n  --seed N     replay a specific piece sequence\n  --columns N  board width  (default 10, minimum 4)\n  --rows N     board height (default 20, minimum 6)";

/// The value of a flag, as the type that flag takes reads it: an unsigned
/// 64-bit seed, or a signed 16-bit board size.
pub open spec fn flag_value(flag: Seq<char>, raw: Seq<char>) -> Option<int> {
    if flag == "--seed"@ {
        parsed_integer(raw, 0, u64::MAX as int)
    } else {
        parsed_integer(raw, i16::MIN as int, i16::MAX as int)
    }
}

/// `config` with the option `flag` names set to `v`.
pub open spec fn with_flag(config: Config, flag: Seq<char>, v: int) -> Config {
    if flag == "--seed"@ {
        Config { seed: Some(v as u64), ..config }
    } else if flag == "--columns"@ {
        Config { columns: v as i16, ..config }
    } else {
        Config { rows: v as i16, ..config }
    }
}

/// What reading `args` from position `i` on does to `config`: each flag must
/// be one of `--seed`, `--columns` and `--rows`, followed by a value of its
/// type; the first argument that breaks this is reported.
pub open spec fn args_config(args: Seq<Seq<char>>, i: int, config: Config) -> Result<Config, Seq<char>>
    decreases args.len() - i,
{
    if i < 0 || i >= args.len() {
        Ok(config)
    } else {
        let flag = args[i];
        if flag != "--seed"@ && flag != "--columns"@ && flag != "--rows"@ {
            Err("unknown argument: "@ + flag)
        } else if i + 1 >= args.len() {
            Err(flag + " needs a value"@)
        } else {
            match flag_value(flag, args[i + 1]) {
                None => Err(flag + " got an invalid value: "@ + args[i + 1]),
                Some(v) => args_config(args, i + 2, with_flag(config, flag, v)),
            }
        }
    }
}

/// What is wrong with `config`, if anything: a board narrower than four
/// columns cannot hold a piece, and one shorter than six rows cannot be played
/// on.
pub open spec fn config_problem(config: Config) -> Option<Seq<char>> {
    if config.columns < 4 {
        Some("--columns must be at least 4"@)
    } else if config.rows < 6 {
        Some("--rows must be at least 6"@)
    } else {
        None
    }
}

/// The configuration `args` describe, starting from a standard game, or the
/// message for the first thing wrong with them.
pub open spec fn configured(args: Seq<Seq<char>>) -> Result<Config, Seq<char>> {
    match args_config(args, 0, standard_config()) {
        Err(message) => Err(message),
        Ok(config) => match config_problem(config) {
            Some(message) => Err(message),
            None => Ok(config),
        },
    }
}

/// The text of each argument.
pub open spec fn texts(args: Seq<String>) -> Seq<Seq<char>> {
    args.map_values(|s: String| s@)
}

/// `a` followed by `b`.
fn joined(a: &str, b: &str) -> (s: String)
    ensures
        s@ == a@ + b@,
{
    let mut s = String::new();
    push_str(&mut s, a);
    push_str(&mut s, b);
    s
}

/// The value of `flag` read from `raw`, or the message saying it is invalid.
fn parse(flag: &str, raw: &str) -> (r: Result<i128, String>)
    ensures
        r matches Ok(v) ==> flag_value(flag@, raw@) == Some(v as int),
        r matches Err(e) ==> flag_value(flag@, raw@) is None && e@ == flag@ + " got an invalid value: "@ + raw@,
{
    let value = if same_text(flag, "--seed") {
        parse_integer(raw, 0, 0xffff_ffff_ffff_ffff)
    } else {
        parse_integer(raw, -32768, 32767)
    };
    match value {
        Some(v) => Ok(v),
        None => {
            let mut message = joined(flag, " got an invalid value: ");
            push_str(&mut message, raw);
            Err(message)
        },
    }
}

impl Config {
    /// Parses `--seed N`, `--columns N` and `--rows N` from `args`.
    ///
    /// Returns a message naming the offending argument when one is unknown, is
    /// missing its value, or does not parse, and a message naming the option
    /// when the board it describes is too small.
    pub fn from_args(args: Vec<String>) -> (r: Result<Config, String>)
        ensures
            r matches Ok(c) ==> configured(texts(args@)) == Ok::<Config, Seq<char>>(c),
            r matches Err(e) ==> configured(texts(args@)) == Err::<Config, Seq<char>>(e@),
    {
        let ghost words = texts(args@);
        let mut config = Config::default();
        let mut i: usize = 0;
        while i < args.len()
            invariant
                words == texts(args@),
                i <= args@.len(),
                args_config(words, i as int, config) == args_config(words, 0, standard_config()),
            decreases args@.len() - i,
        {
            let flag = args[i].as_str();
            assert(flag@ == words[i as int]);
            let is_seed = same_text(flag, "--seed");
            let is_columns = same_text(flag, "--columns");
            let is_rows = same_text(flag, "--rows");
            if !is_seed && !is_columns && !is_rows {
                return Err(joined("unknown argument: ", flag));
            }
            if i + 1 >= args.len() {
                return Err(joined(flag, " needs a value"));
            }
            let raw = args[i + 1].as_str();
            assert(raw@ == words[i + 1]);
            let v = match parse(flag, raw) {
                Ok(v) => v,
                Err(message) => {
                    return Err(message);
                },
            };
            let ghost before = config;
            if is_seed {
                config.seed = Some(v as u64);
            } else if is_columns {
                config.columns = v as i16;
            } else {
                config.rows = v as i16;
            }
            assert(config == with_flag(before, words[i as int], v as int));
            assert(args_config(words, i + 2, config) == args_config(words, i as int, before));
            i = i + 2;
        }
        match config.validate() {
            Ok(()) => Ok(config),
            Err(message) => Err(message),
        }
    }

    /// Checks that the board this configuration describes can be played on.
    fn validate(self) -> (r: Result<(), String>)
        ensures
            r is Ok <==> config_problem(self) is None,
            r matches Err(e) ==> config_problem(self) == Some(e@),
    {
        if self.columns < 4 {
            let mut message = String::new();
            push_str(&mut message, "--columns must be at least 4");
            return Err(message);
        }
        if self.rows < 6 {
            let mut message = String::new();
            push_str(&mut message, "--rows must be at least 6");
            return Err(message);
        }
        Ok(())
    }

    /// Builds the board this configuration describes; both dimensions must be
    /// positive.
    pub fn board(self) -> (b: Board)
        requires
            self.columns > 0,
            self.rows > 0,
        ensures
            b.cols() == self.columns,
            b.lines() == self.rows,
            b.grid() == Seq::new(self.rows as nat, |_r: int| crate::board::grid::blank_row(self.columns as int)),
    {
        Board::new(self.columns, self.rows)
    }
}

} // verus!
